use rustshot_wayland::hex::{hex_panics, parse_hex};
use rustshot_wayland::theme::{colors_toml_panics, contrast_ink, parse_colors_toml, Theme};

#[test]
fn parse_hex_rrggbb() {
    assert_eq!(parse_hex("#e68e0d"), Some([0xe6, 0x8e, 0x0d, 255]));
    assert_eq!(parse_hex("89b4fa"), Some([0x89, 0xb4, 0xfa, 255]));
}

#[test]
fn parse_hex_short_and_alpha() {
    assert_eq!(parse_hex("#abc"), Some([0xaa, 0xbb, 0xcc, 255]));
    assert_eq!(parse_hex("#11223344"), Some([0x11, 0x22, 0x33, 0x44]));
}

#[test]
fn omarchy_colors_toml_uses_accent_for_chrome() {
    let toml = r##"
mode = "dark"
accent = "#e68e0d"
selection = "#2a2a2a"
muted = "#333333"
background = "#121212"
lighter_background = "#1e1e1e"
foreground = "#bebebe"
bright_foreground = "#eaeaea"
"##;
    let t = parse_colors_toml(toml).expect("parse");
    assert_eq!(t.accent, [0xe6, 0x8e, 0x0d, 255]);
    assert_eq!(t.background, [0x12, 0x12, 0x12, 255]);
    assert_eq!(t.muted, [0x33, 0x33, 0x33, 255]);
    assert!(t.dark);
    assert_eq!(t.strip_bg()[3], 230);
}

#[test]
fn light_mode_and_legacy_bg_fg_keys() {
    let toml = r##"
mode = "light"
accent = "#89b4fa"
bg = "#eff1f5"
fg = "#4c4f69"
"##;
    let t = parse_colors_toml(toml).expect("parse");
    assert!(!t.dark);
    assert_eq!(t.background, [0xef, 0xf1, 0xf5, 255]);
    assert_eq!(t.foreground, [0x4c, 0x4f, 0x69, 255]);
    assert_eq!(t.handle_fill(), t.background);
}

#[test]
fn missing_accent_is_not_a_theme() {
    let toml = "mode = \"dark\"\nbackground = \"#000000\"\n";
    assert!(parse_colors_toml(toml).is_none());
}

#[test]
fn fallback_keeps_original_yellow_frame() {
    let t = Theme::fallback();
    assert_eq!(t.accent, [255, 200, 0, 255]);
    assert_eq!(t.background, [28, 28, 32, 255]);
}

#[test]
fn contrast_ink_picks_dark_on_yellow() {
    assert_eq!(contrast_ink([255, 200, 0, 255]), [20, 20, 24, 255]);
    assert_eq!(contrast_ink([18, 18, 18, 255]), [255, 255, 255, 255]);
}

#[test]
fn parse_hex_rejects_bad_lengths_and_digits() {
    assert_eq!(parse_hex(""), None);
    assert_eq!(parse_hex("#"), None);
    assert_eq!(parse_hex("#12345"), None);
    assert_eq!(parse_hex("#1234567"), None);
    assert_eq!(parse_hex("#gg0000"), None);
    assert_eq!(parse_hex("#+10"), None);
    assert_eq!(parse_hex("##abc"), None);
}

#[test]
fn parse_hex_trims_and_takes_either_case() {
    assert_eq!(parse_hex("  #AbC\n"), Some([0xaa, 0xbb, 0xcc, 255]));
    assert_eq!(parse_hex("FFffFF"), Some([255, 255, 255, 255]));
    assert_eq!(parse_hex("0000007f"), Some([0, 0, 0, 0x7f]));
}

#[test]
fn parse_hex_takes_a_plus_sign_as_from_str_radix_does() {
    assert_eq!(parse_hex("+1+2+3"), Some([1, 2, 3, 255]));
    assert_eq!(parse_hex("#+1+"), None);
}

#[test]
fn parse_hex_panic_inputs_are_detected() {
    // Six bytes, but the slice at byte 2 would split the two-byte 'é'.
    assert!(hex_panics("#aéaaa"));
    assert!(!hex_panics("#abcdef"));
    assert!(!hex_panics("xyz"));
}

#[test]
fn load_without_file_or_with_bad_text_falls_back() {
    assert_eq!(Theme::load(None), Theme::fallback());
    assert_eq!(Theme::load(Some("this is = not [toml")), Theme::fallback());
    assert_eq!(Theme::load(Some("mode = \"dark\"\n")), Theme::fallback());
}

#[test]
fn load_with_a_panicking_colour_is_refused() {
    let toml = "accent = \"#aéaaa\"\n";
    assert!(colors_toml_panics(toml));
    assert_eq!(Theme::try_load(Some(toml)), None);
    assert_eq!(Theme::try_load(None), Some(Theme::fallback()));
    let ok = "accent = \"#010203\"\n";
    assert_eq!(Theme::try_load(Some(ok)), Some(Theme::load(Some(ok))));
}

#[test]
fn load_uses_defaults_for_missing_keys() {
    let t = Theme::load(Some("accent = \"#010203\"\n"));
    assert_eq!(t.accent, [1, 2, 3, 255]);
    assert_eq!(t.background, [28, 28, 32, 255]);
    assert_eq!(t.lighter_background, [28, 28, 32, 255]);
    assert_eq!(t.selection, [28, 28, 32, 255]);
    assert_eq!(t.muted, [90, 90, 108, 255]);
    assert_eq!(t.foreground, [210, 210, 210, 255]);
    assert_eq!(t.bright_foreground, [210, 210, 210, 255]);
    assert!(t.dark);
}

#[test]
fn invalid_primary_colour_falls_back_to_alias() {
    let t = Theme::load(Some("accent = \"#010203\"\nbackground = \"nope\"\nbg = \"#0a0b0c\"\nmode = \"LIGHT\"\n"));
    assert_eq!(t.background, [10, 11, 12, 255]);
    assert!(!t.dark);
}

#[test]
fn theme_accessors() {
    let t = Theme::fallback();
    assert_eq!(t.strip_bg(), [28, 28, 32, 230]);
    assert_eq!(t.handle_fill(), [255, 255, 255, 255]);
    assert_eq!(t.on_accent(), [20, 20, 24, 255]);
}

fn lin(v: u8) -> f32 {
    let s = v as f32 / 255.0;
    if s <= 0.04045 {
        s / 12.92
    } else {
        ((s + 0.055) / 1.055).powf(2.4)
    }
}

#[test]
fn contrast_ink_matches_the_relative_luminance_rule() {
    let table: Vec<f32> = (0..=255u8).map(lin).collect();
    for r in 0..=255usize {
        for g in 0..=255usize {
            for b in (0..=255usize).step_by(5) {
                let luma = 0.2126 * table[r] + 0.7152 * table[g] + 0.0722 * table[b];
                let want = if luma > 0.45 { [20, 20, 24, 255] } else { [255, 255, 255, 255] };
                assert_eq!(contrast_ink([r as u8, g as u8, b as u8, 255]), want, "{r} {g} {b}");
            }
        }
    }
}
