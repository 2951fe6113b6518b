use rustshot_wayland::config::{
    auto_save_path, expand_tilde, expand_tilde_with, join_path, latest_path_with, pixelate_block_of,
    resolve_latest_path, resolve_save_path, save_target, CaptureCfg, Clipboard, SaveTarget,
};

#[test]
fn join_follows_pathbuf_rules() {
    assert_eq!(join_path("/home/u", "a.png"), "/home/u/a.png");
    assert_eq!(join_path("/home/u/", "a.png"), "/home/u/a.png");
    assert_eq!(join_path("", "a.png"), "a.png");
    assert_eq!(join_path("/home/u", "/etc/x"), "/etc/x");
    assert_eq!(join_path("dir", ""), "dir/");
    for (base, p) in [("/home/u", "a/b"), ("x/", "y"), ("", ""), ("/", "z"), ("a", "/b")] {
        let want = std::path::PathBuf::from(base).join(p);
        assert_eq!(join_path(base, p), want.to_string_lossy());
    }
}

#[test]
fn tilde_expansion_with_a_home() {
    assert_eq!(expand_tilde_with("~/Pictures/s", Some("/home/u")), "/home/u/Pictures/s");
    assert_eq!(expand_tilde_with("~", Some("/home/u")), "/home/u");
    assert_eq!(expand_tilde_with("~user/x", Some("/home/u")), "~user/x");
    assert_eq!(expand_tilde_with("/abs/~/x", Some("/home/u")), "/abs/~/x");
    assert_eq!(expand_tilde_with("~//etc", Some("/home/u")), "/etc");
}

#[test]
fn tilde_expansion_without_a_home_keeps_the_path() {
    assert_eq!(expand_tilde_with("~/x", None), "~/x");
    assert_eq!(expand_tilde_with("~", None), "~");
}

#[test]
fn expand_tilde_keeps_plain_paths() {
    assert_eq!(expand_tilde("/tmp/shot.png"), "/tmp/shot.png");
    assert_eq!(expand_tilde("rel/shot.png"), "rel/shot.png");
}

#[test]
fn save_targets() {
    assert_eq!(save_target("/x.png", true), SaveTarget::Skip);
    assert_eq!(save_target("", true), SaveTarget::Skip);
    assert_eq!(save_target("/x.png", false), SaveTarget::Given);
    assert_eq!(save_target("", false), SaveTarget::Auto);
}

#[test]
fn resolve_save_path_cases() {
    assert_eq!(resolve_save_path("/x.png".into(), true, "/d", "%Y.png"), Some(String::new()));
    assert_eq!(resolve_save_path("/x.png".into(), false, "/d", "%Y.png"), Some("/x.png".into()));
    let auto = resolve_save_path(String::new(), false, "/shots", "fixed.png").unwrap();
    assert_eq!(auto, "/shots/fixed.png");
    let dated = resolve_save_path(String::new(), false, "/shots", "%Y%m%d.png").unwrap();
    assert!(dated.starts_with("/shots/") && dated.ends_with(".png"));
    assert_eq!(dated.len(), "/shots/".len() + 8 + 4);
    assert_eq!(resolve_save_path(String::new(), false, "/shots", "%Q"), None);
    // Parses as a specifier, but chrono cannot format it.
    assert_eq!(resolve_save_path(String::new(), false, "/shots", "%#z"), None);
}

#[test]
fn latest_path_rules() {
    assert_eq!(latest_path_with("   ", Some("/h")), None);
    assert_eq!(latest_path_with("", None), None);
    assert_eq!(latest_path_with("  ~/l.png \n", Some("/h")), Some("/h/l.png".into()));
    assert_eq!(latest_path_with("/x/l.png", None), Some("/x/l.png".into()));
    assert_eq!(resolve_latest_path(" \t"), None);
    assert_eq!(resolve_latest_path(" /abs/l.png "), Some("/abs/l.png".into()));
}

#[test]
fn section_defaults() {
    assert!(!CaptureCfg::default().include_cursor);
    assert_eq!(Clipboard::default().latest_path, "~/Pictures/screenshots/rustshot-latest.png");
}

#[test]
fn pixelate_block_is_at_least_two() {
    assert_eq!(pixelate_block_of(0), 2);
    assert_eq!(pixelate_block_of(1), 2);
    assert_eq!(pixelate_block_of(2), 2);
    assert_eq!(pixelate_block_of(10), 10);
}

#[test]
fn auto_save_path_without_specifiers_uses_the_pattern() {
    assert_eq!(auto_save_path("/s", "x.png").as_deref(), Some("/s/x.png"));
    assert_eq!(auto_save_path("/s/", "shot.png").as_deref(), Some("/s/shot.png"));
}

#[test]
fn auto_save_path_formats_the_clock() {
    let p = auto_save_path("/s", "%Y%m%d-%H%M%S.png").unwrap();
    assert!(p.starts_with("/s/"));
    assert!(p.ends_with(".png"));
    assert_eq!(p.len(), "/s/".len() + "20240101-000000.png".len());
    assert!(p["/s/".len()..p.len() - 4].chars().all(|c| c.is_ascii_digit() || c == '-'));
}

#[test]
fn auto_save_path_with_a_bad_specifier_fails() {
    assert_eq!(auto_save_path("/s", "%Q"), None);
}
