//! Overlay chrome palette.
//!
//! On Omarchy the palette comes from the live theme's `colors.toml`; off
//! Omarchy, [`Theme::fallback`] keeps the classic yellow frame and dark
//! strip. Annotation strokes do not use this palette.

use vstd::prelude::*;
use crate::hex::{hex_panics, hex_would_panic, parse_hex, rgba_of, spec_parse_hex};
use crate::text::{chars_of, str_eq};

verus! {

/// Semantic chrome colours. All channels are RGBA, alpha usually 255.
#[derive(Debug, Clone, Copy, PartialEq, Eq)]
pub struct Theme {
    pub accent: [u8; 4],
    pub background: [u8; 4],
    pub lighter_background: [u8; 4],
    pub selection: [u8; 4],
    pub muted: [u8; 4],
    pub foreground: [u8; 4],
    pub bright_foreground: [u8; 4],
    pub dark: bool,
}

/// A colour as an RGBA tuple.
pub type Rgba4 = (u8, u8, u8, u8);

/// The palette of a [`Theme`] as plain tuples.
pub struct ThemeColors {
    pub accent: Rgba4,
    pub background: Rgba4,
    pub lighter_background: Rgba4,
    pub selection: Rgba4,
    pub muted: Rgba4,
    pub foreground: Rgba4,
    pub bright_foreground: Rgba4,
    pub dark: bool,
}

impl View for Theme {
    type V = ThemeColors;

    open spec fn view(&self) -> ThemeColors {
        ThemeColors {
            accent: rgba_of(self.accent),
            background: rgba_of(self.background),
            lighter_background: rgba_of(self.lighter_background),
            selection: rgba_of(self.selection),
            muted: rgba_of(self.muted),
            foreground: rgba_of(self.foreground),
            bright_foreground: rgba_of(self.bright_foreground),
            dark: self.dark,
        }
    }
}

pub open spec fn fallback_colors() -> ThemeColors {
    ThemeColors {
        accent: (255, 200, 0, 255),
        background: (28, 28, 32, 255),
        lighter_background: (48, 48, 56, 255),
        selection: (64, 64, 72, 255),
        muted: (90, 90, 108, 255),
        foreground: (210, 210, 210, 255),
        bright_foreground: (255, 255, 255, 255),
        dark: true,
    }
}

/// Top-level entries of a TOML document: each key with its value when that
/// value is a string.
pub type Entries = Seq<(Seq<char>, Option<Seq<char>>)>;

/// Name for the result of parsing TOML text into its top-level table and
/// reading each value as a string where it is one.
pub uninterp spec fn toml_string_entries(text: Seq<char>) -> Option<Entries>;

/// Calls `toml::from_str` for a top-level table and lists its entries, each
/// value reduced to its string content when it is a TOML string. Claims only
/// that the result is `toml_string_entries` of the text: `None` when the text
/// is not valid TOML. The table is a `toml::Table` (the same parse that a
/// `HashMap<String, toml::Value>` target gets), walked in its own key order.
#[verifier::external_body]
fn toml_top_level_strings(text: &str) -> (r: Option<Vec<(String, Option<String>)>>)
    ensures
        r.deep_view() == toml_string_entries(text@),
{
    let table: toml::Table = toml::from_str(text).ok()?;
    let mut out = Vec::with_capacity(table.len());
    for (key, value) in table {
        match value {
            toml::Value::String(s) => out.push((key, Some(s))),
            _ => out.push((key, None)),
        }
    }
    Some(out)
}

/// The value of the first entry named `key`.
pub open spec fn lookup(e: Entries, key: Seq<char>) -> Option<Option<Seq<char>>>
    decreases e.len(),
{
    if e.len() == 0 {
        None
    } else if e[0].0 == key {
        Some(e[0].1)
    } else {
        lookup(e.drop_first(), key)
    }
}

/// Outcome of reading a colour under one key.
pub enum ColorLookup {
    Found(Rgba4),
    Absent,
    /// The key holds a string that `parse_hex` panics on.
    Panics,
}

/// The colour stored as a hex string under `key`: absent when the key is
/// missing, not a string, or not a colour.
pub open spec fn color_at(e: Entries, key: Seq<char>) -> ColorLookup {
    match lookup(e, key) {
        Some(Some(s)) => if hex_would_panic(s) {
            ColorLookup::Panics
        } else {
            match spec_parse_hex(s) {
                Some(c) => ColorLookup::Found(c),
                None => ColorLookup::Absent,
            }
        },
        _ => ColorLookup::Absent,
    }
}

/// The first key that yields a colour wins; an alias is tried only when the
/// primary key yields none.
pub open spec fn either(a: ColorLookup, b: ColorLookup) -> ColorLookup {
    if a is Absent {
        b
    } else {
        a
    }
}

pub open spec fn or_else(a: ColorLookup, d: Rgba4) -> Rgba4 {
    match a {
        ColorLookup::Found(c) => c,
        _ => d,
    }
}

/// ASCII-case-insensitive equality, as `str::eq_ignore_ascii_case`.
pub open spec fn ascii_lower(c: char) -> char {
    if 'A' <= c <= 'Z' {
        ((c as u8) + 32) as char
    } else {
        c
    }
}

pub open spec fn eq_ignore_ascii_case(a: Seq<char>, b: Seq<char>) -> bool {
    a.len() == b.len() && forall|i: int| 0 <= i < a.len() ==> ascii_lower(#[trigger] a[i])
        == ascii_lower(b[i])
}

/// Outcome of building a theme from TOML entries.
pub enum ThemeParse {
    Parsed(ThemeColors),
    /// No usable `accent`: not an Omarchy theme.
    NotATheme,
    /// A colour that would be read holds text that `parse_hex` panics on.
    Panics,
}

/// What `colors.toml` entries give: `accent` is required; `background`/`bg`,
/// `lighter_background`/`lighter_bg`, `selection`, `muted`,
/// `foreground`/`fg`, `bright_foreground`/`bright_fg` fall back to the
/// defaults or to each other; `mode = "light"` (any case) makes it light.
pub open spec fn theme_from_entries(e: Entries) -> ThemeParse {
    let accent = color_at(e, "accent"@);
    let bg = either(color_at(e, "background"@), color_at(e, "bg"@));
    let lighter = either(color_at(e, "lighter_background"@), color_at(e, "lighter_bg"@));
    let sel = color_at(e, "selection"@);
    let muted = color_at(e, "muted"@);
    let fg = either(color_at(e, "foreground"@), color_at(e, "fg"@));
    let bright = either(color_at(e, "bright_foreground"@), color_at(e, "bright_fg"@));
    match accent {
        ColorLookup::Panics => ThemeParse::Panics,
        ColorLookup::Absent => ThemeParse::NotATheme,
        ColorLookup::Found(a) => if bg is Panics || lighter is Panics || sel is Panics
            || muted is Panics || fg is Panics || bright is Panics {
            ThemeParse::Panics
        } else {
            let background = or_else(bg, (28, 28, 32, 255));
            let lighter_background = or_else(lighter, background);
            let foreground = or_else(fg, (210, 210, 210, 255));
            ThemeParse::Parsed(
                ThemeColors {
                    accent: a,
                    background,
                    lighter_background,
                    selection: or_else(sel, lighter_background),
                    muted: or_else(muted, (90, 90, 108, 255)),
                    foreground,
                    bright_foreground: or_else(bright, foreground),
                    dark: match lookup(e, "mode"@) {
                        Some(Some(m)) => !eq_ignore_ascii_case(m, "light"@),
                        _ => true,
                    },
                },
            )
        },
    }
}

/// How each colour of a parsed theme is chosen. A colour found under the
/// primary key wins over its alias, and the alias over the fallback; the
/// fallbacks are: background a near-black grey, lighter background the
/// background, selection the lighter background, muted a dim grey,
/// foreground a light grey, bright foreground the foreground. The theme is
/// light exactly when `mode` is the string "light" in any letter case.
pub proof fn lemma_theme_fallbacks(e: Entries)
    ensures
        theme_from_entries(e) matches ThemeParse::Parsed(t) ==> {
            &&& color_at(e, "accent"@) == ColorLookup::Found(t.accent)
            &&& (color_at(e, "background"@) matches ColorLookup::Found(c) ==> t.background == c)
            &&& (color_at(e, "bg"@) matches ColorLookup::Found(c) ==> (color_at(e, "background"@) is Absent
                ==> t.background == c))
            &&& (color_at(e, "background"@) is Absent && color_at(e, "bg"@) is Absent ==> t.background
                == (28u8, 28u8, 32u8, 255u8))
            &&& (color_at(e, "lighter_background"@) matches ColorLookup::Found(c)
                ==> t.lighter_background == c)
            &&& (color_at(e, "lighter_bg"@) matches ColorLookup::Found(c) ==> (color_at(e, "lighter_background"@) is Absent
                ==> t.lighter_background == c))
            &&& (color_at(e, "lighter_background"@) is Absent && color_at(e, "lighter_bg"@) is Absent
                ==> t.lighter_background == t.background)
            &&& (color_at(e, "selection"@) matches ColorLookup::Found(c) ==> t.selection == c)
            &&& (color_at(e, "selection"@) is Absent ==> t.selection == t.lighter_background)
            &&& (color_at(e, "muted"@) matches ColorLookup::Found(c) ==> t.muted == c)
            &&& (color_at(e, "muted"@) is Absent ==> t.muted == (90u8, 90u8, 108u8, 255u8))
            &&& (color_at(e, "foreground"@) matches ColorLookup::Found(c) ==> t.foreground == c)
            &&& (color_at(e, "fg"@) matches ColorLookup::Found(c) ==> (color_at(e, "foreground"@) is Absent
                ==> t.foreground == c))
            &&& (color_at(e, "foreground"@) is Absent && color_at(e, "fg"@) is Absent ==> t.foreground
                == (210u8, 210u8, 210u8, 255u8))
            &&& (color_at(e, "bright_foreground"@) matches ColorLookup::Found(c)
                ==> t.bright_foreground == c)
            &&& (color_at(e, "bright_fg"@) matches ColorLookup::Found(c) ==> (color_at(e, "bright_foreground"@) is Absent
                ==> t.bright_foreground == c))
            &&& (color_at(e, "bright_foreground"@) is Absent && color_at(e, "bright_fg"@) is Absent
                ==> t.bright_foreground == t.foreground)
            &&& (!t.dark <==> (lookup(e, "mode"@) matches Some(Some(m)) && eq_ignore_ascii_case(
                m,
                "light"@,
            )))
        },
        theme_from_entries(e) is NotATheme <==> color_at(e, "accent"@) is Absent,
{
}

/// What a `colors.toml` text gives.
pub open spec fn theme_from_text(text: Seq<char>) -> ThemeParse {
    match toml_string_entries(text) {
        Some(e) => theme_from_entries(e),
        None => ThemeParse::NotATheme,
    }
}

pub open spec fn linear_srgb(v: u8) -> int {
    LINEAR_SRGB@[v as int] as int
}

/// Relative luminance of the colour, times 10^13 (the linear channel values
/// of `LINEAR_SRGB` are scaled by 10^9, the weights by 10^4).
pub open spec fn luma_scaled(c: Rgba4) -> int {
    2126 * linear_srgb(c.0) + 7152 * linear_srgb(c.1) + 722 * linear_srgb(c.2)
}

/// Ink that reads on `bg`: near-black on light colours (luminance above
/// 0.45), white otherwise.
pub open spec fn contrast_ink_of(bg: Rgba4) -> Rgba4 {
    if luma_scaled(bg) > 4_500_000_000_000 {
        (20, 20, 24, 255)
    } else {
        (255, 255, 255, 255)
    }
}

/// sRGB transfer function: channel value `v / 255` in linear light, times
/// 10^9 and rounded (`v/255/12.92` up to 0.04045, else
/// `((v/255 + 0.055) / 1.055)^2.4`).
pub const LINEAR_SRGB: [u32; 256] = [
    0, 303527, 607054, 910581, 1214108, 1517635, 1821162, 2124689,
    2428216, 2731743, 3035270, 3346536, 3676507, 4024717, 4391442, 4776953,
    5181517, 5605392, 6048833, 6512091, 6995410, 7499032, 8023192, 8568125,
    9134057, 9721218, 10329823, 10960094, 11612245, 12286487, 12983031, 13702081,
    14443844, 15208514, 15996292, 16807375, 17641952, 18500218, 19382361, 20288562,
    21219010, 22173883, 23153365, 24157630, 25186857, 26241222, 27320892, 28426038,
    29556833, 30713441, 31896029, 33104762, 34339808, 35601314, 36889445, 38204364,
    39546236, 40915199, 42311411, 43735027, 45186203, 46665084, 48171822, 49706563,
    51269468, 52860655, 54480281, 56128494, 57805434, 59511241, 61246071, 63010029,
    64803280, 66625953, 68478182, 70360109, 72271861, 74213579, 76185390, 78187428,
    80219828, 82282715, 84376216, 86500466, 88655606, 90841733, 93058981, 95307484,
    97587362, 99898741, 102241747, 104616493, 107023112, 109461717, 111932434, 114435382,
    116970673, 119538434, 122138798, 124771841, 127437696, 130136490, 132868335, 135633349,
    138431624, 141263306, 144128487, 147027284, 149959803, 152926162, 155926466, 158960864,
    162029400, 165132225, 168269396, 171441093, 174647391, 177888408, 181164235, 184474990,
    187820762, 191201672, 194617808, 198069304, 201556236, 205078706, 208636850, 212230727,
    215860531, 219526231, 223227978, 226965889, 230740070, 234550655, 238397658, 242281199,
    246201396, 250158370, 254152179, 258182913, 262250721, 266355664, 270497859, 274677366,
    278894335, 283148795, 287440896, 291770697, 296138316, 300543845, 304987371, 309468955,
    313988745, 318546832, 323143244, 327778131, 332451582, 337163657, 341914445, 346704096,
    351532698, 356400251, 361306876, 366252691, 371237785, 376262218, 381326109, 386429518,
    391572565, 396755308, 401977867, 407240301, 412542701, 417885154, 423267752, 428690553,
    434153706, 439657241, 445201248, 450785846, 456411064, 462077051, 467783839, 473531544,
    479320228, 485149980, 491020888, 496933043, 502886593, 508881450, 514917791, 520995677,
    527115226, 533276498, 539479613, 545724571, 552011490, 558340490, 564711630, 571124911,
    577580512, 584078491, 590618908, 597201884, 603827417, 610495627, 617206633, 623960435,
    630757213, 637596965, 644479752, 651405692, 658374846, 665387332, 672443211, 679542542,
    686685443, 693871915, 701102018, 708375931, 715693653, 723055243, 730460882, 737910569,
    745404363, 752942324, 760524631, 768151283, 775822341, 783537924, 791298032, 799102843,
    806952357, 814846694, 822785854, 830769956, 838799119, 846873283, 854992688, 863157272,
    871367216, 879622340, 887923181, 896269381, 904661357, 913098693, 921582043, 930110872,
    938685894, 947306573, 955973506, 964686275, 973445475, 982250571, 991102219, 1000000000,
];

/// The sRGB transfer table rises strictly: a brighter channel value is
/// brighter in linear light.
pub proof fn lemma_linear_srgb_increasing(i: int, j: int)
    requires
        0 <= i < j < 256,
    ensures
        LINEAR_SRGB@[i] < LINEAR_SRGB@[j],
    decreases j - i,
{
    assert(forall|k: int| 0 <= k < 255 ==> LINEAR_SRGB@[k] < #[trigger] LINEAR_SRGB@[k + 1]);
    if i + 1 < j {
        lemma_linear_srgb_increasing(i, j - 1);
        assert(LINEAR_SRGB@[j - 1] < LINEAR_SRGB@[(j - 1) + 1]);
    } else {
        assert(LINEAR_SRGB@[i] < LINEAR_SRGB@[i + 1]);
    }
}

/// The ink is near-black or white and ignores alpha; black gets white ink
/// and white gets near-black ink; and the ink never flips back to white as
/// a colour brightens in every channel.
pub proof fn lemma_contrast_ink(a: Rgba4, b: Rgba4)
    ensures
        contrast_ink_of(a) == (20u8, 20u8, 24u8, 255u8) || contrast_ink_of(a) == (
            255u8,
            255u8,
            255u8,
            255u8,
        ),
        a.0 == b.0 && a.1 == b.1 && a.2 == b.2 ==> contrast_ink_of(a) == contrast_ink_of(b),
        contrast_ink_of((0u8, 0u8, 0u8, a.3)) == (255u8, 255u8, 255u8, 255u8),
        contrast_ink_of((255u8, 255u8, 255u8, a.3)) == (20u8, 20u8, 24u8, 255u8),
        a.0 <= b.0 && a.1 <= b.1 && a.2 <= b.2 && contrast_ink_of(a) == (20u8, 20u8, 24u8, 255u8)
            ==> contrast_ink_of(b) == (20u8, 20u8, 24u8, 255u8),
{
    if a.0 < b.0 {
        lemma_linear_srgb_increasing(a.0 as int, b.0 as int);
    }
    if a.1 < b.1 {
        lemma_linear_srgb_increasing(a.1 as int, b.1 as int);
    }
    if a.2 < b.2 {
        lemma_linear_srgb_increasing(a.2 as int, b.2 as int);
    }
    assert(LINEAR_SRGB@[0] == 0 && LINEAR_SRGB@[255] == 1_000_000_000);
}

fn luma(c: [u8; 4]) -> (r: u64)
    ensures
        r == luma_scaled(rgba_of(c)),
{
    let r = LINEAR_SRGB[c[0] as usize] as u64;
    let g = LINEAR_SRGB[c[1] as usize] as u64;
    let b = LINEAR_SRGB[c[2] as usize] as u64;
    assert(r <= 1_000_000_000 && g <= 1_000_000_000 && b <= 1_000_000_000) by {
        assert forall|i: int| 0 <= i < 256 implies LINEAR_SRGB@[i] <= 1_000_000_000 by {}
    }
    2126 * r + 7152 * g + 722 * b
}

/// Ink colour (near-black or white) that contrasts with `bg`.
pub fn contrast_ink(bg: [u8; 4]) -> (r: [u8; 4])
    ensures
        rgba_of(r) == contrast_ink_of(rgba_of(bg)),
{
    if luma(bg) > 4_500_000_000_000 {
        [20, 20, 24, 255]
    } else {
        [255, 255, 255, 255]
    }
}

fn lower(c: char) -> (r: char)
    ensures
        r == ascii_lower(c),
{
    if 'A' <= c && c <= 'Z' {
        ((c as u8) + 32) as char
    } else {
        c
    }
}

fn str_eq_ignore_ascii_case(a: &str, b: &str) -> (r: bool)
    ensures
        r == eq_ignore_ascii_case(a@, b@),
{
    let x = chars_of(a);
    let y = chars_of(b);
    if x.len() != y.len() {
        return false;
    }
    let mut i: usize = 0;
    while i < x.len()
        invariant
            i <= x@.len() == y@.len(),
            x@ == a@,
            y@ == b@,
            forall|j: int| 0 <= j < i ==> ascii_lower(#[trigger] x@[j]) == ascii_lower(y@[j]),
        decreases x@.len() - i,
    {
        if lower(x[i]) != lower(y[i]) {
            assert(ascii_lower(x@[i as int]) != ascii_lower(y@[i as int]));
            return false;
        }
        i = i + 1;
    }
    true
}

/// Index of the first entry named `key`.
fn find_key(entries: &Vec<(String, Option<String>)>, key: &str) -> (r: Option<usize>)
    ensures
        match r {
            Some(i) => i < entries@.len() && lookup(entries.deep_view(), key@) == Some(
                entries.deep_view()[i as int].1,
            ),
            None => lookup(entries.deep_view(), key@) is None,
        },
{
    let ghost e = entries.deep_view();
    assert(e.skip(0) =~= e);
    let mut i: usize = 0;
    while i < entries.len()
        invariant
            i <= entries@.len() == e.len(),
            e == entries.deep_view(),
            lookup(e, key@) == lookup(e.skip(i as int), key@),
        decreases e.len() - i,
    {
        assert(e.skip(i as int)[0] == e[i as int]);
        assert(e.skip(i as int).drop_first() =~= e.skip(i + 1));
        if str_eq(entries[i].0.as_str(), key) {
            return Some(i);
        }
        i = i + 1;
    }
    assert(e.skip(i as int).len() == 0);
    None
}

/// Whether the string under `key` is one that `parse_hex` panics on.
fn key_panics(entries: &Vec<(String, Option<String>)>, key: &str) -> (r: bool)
    ensures
        r == (color_at(entries.deep_view(), key@) is Panics),
{
    match find_key(entries, key) {
        Some(i) => match &entries[i].1 {
            Some(s) => hex_panics(s.as_str()),
            None => false,
        },
        None => false,
    }
}

/// The colour under `key`.
fn color_for(entries: &Vec<(String, Option<String>)>, key: &str) -> (r: Option<[u8; 4]>)
    requires
        !(color_at(entries.deep_view(), key@) is Panics),
    ensures
        match color_at(entries.deep_view(), key@) {
            ColorLookup::Found(c) => r matches Some(x) && rgba_of(x) == c,
            _ => r is None,
        },
{
    match find_key(entries, key) {
        Some(i) => match &entries[i].1 {
            Some(s) => parse_hex(s.as_str()),
            None => None,
        },
        None => None,
    }
}

/// Whether building a theme from these entries would hit a colour that
/// `parse_hex` panics on.
pub fn theme_panics(entries: &Vec<(String, Option<String>)>) -> (r: bool)
    ensures
        r == (theme_from_entries(entries.deep_view()) is Panics),
{
    if key_panics(entries, "accent") {
        return true;
    }
    match color_for(entries, "accent") {
        None => false,
        Some(_) => {
            (key_panics(entries, "background") || (color_for_opt_absent(entries, "background")
                && key_panics(entries, "bg"))) || (key_panics(entries, "lighter_background") || (
            color_for_opt_absent(entries, "lighter_background") && key_panics(
                entries,
                "lighter_bg",
            ))) || key_panics(entries, "selection") || key_panics(entries, "muted") || (
            key_panics(entries, "foreground") || (color_for_opt_absent(entries, "foreground")
                && key_panics(entries, "fg"))) || (key_panics(entries, "bright_foreground") || (
            color_for_opt_absent(entries, "bright_foreground") && key_panics(
                entries,
                "bright_fg",
            )))
        },
    }
}

/// Whether the key yields no colour (and does not panic).
fn color_for_opt_absent(entries: &Vec<(String, Option<String>)>, key: &str) -> (r: bool)
    ensures
        r == (color_at(entries.deep_view(), key@) is Absent),
{
    if key_panics(entries, key) {
        false
    } else {
        color_for(entries, key).is_none()
    }
}

/// The first of `primary` and `alias` that yields a colour.
fn color_either(entries: &Vec<(String, Option<String>)>, primary: &str, alias: &str) -> (r: Option<
    [u8; 4],
>)
    requires
        !(either(color_at(entries.deep_view(), primary@), color_at(entries.deep_view(), alias@)) is Panics),
    ensures
        match either(color_at(entries.deep_view(), primary@), color_at(entries.deep_view(), alias@)) {
            ColorLookup::Found(c) => r matches Some(x) && rgba_of(x) == c,
            _ => r is None,
        },
{
    match color_for(entries, primary) {
        Some(c) => Some(c),
        None => color_for(entries, alias),
    }
}

impl Theme {
    /// Pre-Omarchy chrome: yellow selection, dark strip.
    pub fn fallback() -> (t: Theme)
        ensures
            t@ == fallback_colors(),
    {
        Theme {
            accent: [255, 200, 0, 255],
            background: [28, 28, 32, 255],
            lighter_background: [48, 48, 56, 255],
            selection: [64, 64, 72, 255],
            muted: [90, 90, 108, 255],
            foreground: [210, 210, 210, 255],
            bright_foreground: [255, 255, 255, 255],
            dark: true,
        }
    }

    /// The chrome for the text of the live `colors.toml` (`None` when it
    /// could not be read): the theme it describes, or the fallback when it
    /// describes none. A colour text that [`parse_hex`] panics on is left
    /// out; [`Theme::try_load`] tests for it.
    pub fn load(colors_toml: Option<&str>) -> (t: Theme)
        requires
            colors_toml matches Some(s) ==> !(theme_from_text(s@) is Panics),
        ensures
            t@ == match colors_toml {
                Some(s) => match theme_from_text(s@) {
                    ThemeParse::Parsed(c) => c,
                    _ => fallback_colors(),
                },
                None => fallback_colors(),
            },
    {
        match colors_toml {
            Some(s) => match parse_colors_toml(s) {
                Some(t) => t,
                None => Theme::fallback(),
            },
            None => Theme::fallback(),
        }
    }

    /// [`Theme::load`] where it is defined: `None` exactly when the text
    /// holds a colour that [`parse_hex`] panics on.
    pub fn try_load(colors_toml: Option<&str>) -> (r: Option<Theme>)
        ensures
            match colors_toml {
                Some(s) => match theme_from_text(s@) {
                    ThemeParse::Panics => r is None,
                    ThemeParse::Parsed(c) => r matches Some(t) && t@ == c,
                    ThemeParse::NotATheme => r matches Some(t) && t@ == fallback_colors(),
                },
                None => r matches Some(t) && t@ == fallback_colors(),
            },
    {
        if let Some(s) = colors_toml {
            if colors_toml_panics(s) {
                return None;
            }
        }
        Some(Theme::load(colors_toml))
    }

    /// Strip background: the theme background at alpha 230.
    pub fn strip_bg(self) -> (c: [u8; 4])
        ensures
            rgba_of(c) == (self@.background.0, self@.background.1, self@.background.2, 230u8),
    {
        let mut c = self.background;
        c[3] = 230;
        c
    }

    /// Fill of the selection handles: white on dark themes, the background
    /// colour on light ones.
    pub fn handle_fill(self) -> (c: [u8; 4])
        ensures
            rgba_of(c) == if self.dark {
                (255u8, 255u8, 255u8, 255u8)
            } else {
                self@.background
            },
    {
        if self.dark {
            [255, 255, 255, 255]
        } else {
            self.background
        }
    }

    /// Ink for text drawn on the accent colour.
    pub fn on_accent(self) -> (c: [u8; 4])
        ensures
            rgba_of(c) == contrast_ink_of(self@.accent),
    {
        contrast_ink(self.accent)
    }
}

/// Build the chrome palette from the entries of a `colors.toml`; `None` when
/// there is no usable `accent`.
pub fn theme_from_table(entries: &Vec<(String, Option<String>)>) -> (r: Option<Theme>)
    requires
        !(theme_from_entries(entries.deep_view()) is Panics),
    ensures
        match r {
            Some(t) => theme_from_entries(entries.deep_view()) == ThemeParse::Parsed(t@),
            None => theme_from_entries(entries.deep_view()) is NotATheme,
        },
{
    let accent = match color_for(entries, "accent") {
        Some(c) => c,
        None => return None,
    };
    let background = match color_either(entries, "background", "bg") {
        Some(c) => c,
        None => [28, 28, 32, 255],
    };
    let lighter_background = match color_either(entries, "lighter_background", "lighter_bg") {
        Some(c) => c,
        None => background,
    };
    let selection = match color_for(entries, "selection") {
        Some(c) => c,
        None => lighter_background,
    };
    let muted = match color_for(entries, "muted") {
        Some(c) => c,
        None => [90, 90, 108, 255],
    };
    let foreground = match color_either(entries, "foreground", "fg") {
        Some(c) => c,
        None => [210, 210, 210, 255],
    };
    let bright_foreground = match color_either(entries, "bright_foreground", "bright_fg") {
        Some(c) => c,
        None => foreground,
    };
    let dark = match find_key(entries, "mode") {
        Some(i) => match &entries[i].1 {
            Some(m) => !str_eq_ignore_ascii_case(m.as_str(), "light"),
            None => true,
        },
        None => true,
    };
    let t = Theme {
        accent,
        background,
        lighter_background,
        selection,
        muted,
        foreground,
        bright_foreground,
        dark,
    };
    Some(t)
}

/// Whether building a theme from this `colors.toml` text would hit a colour
/// that `parse_hex` panics on.
pub fn colors_toml_panics(s: &str) -> (r: bool)
    ensures
        r == (theme_from_text(s@) is Panics),
{
    match toml_top_level_strings(s) {
        Some(entries) => theme_panics(&entries),
        None => false,
    }
}

/// Parse the text of an Omarchy `colors.toml` into chrome colours; `None`
/// when it is not TOML or has no usable `accent`.
pub fn parse_colors_toml(s: &str) -> (r: Option<Theme>)
    requires
        !(theme_from_text(s@) is Panics),
    ensures
        match r {
            Some(t) => theme_from_text(s@) == ThemeParse::Parsed(t@),
            None => theme_from_text(s@) is NotATheme,
        },
{
    match toml_top_level_strings(s) {
        Some(entries) => theme_from_table(&entries),
        None => None,
    }
}

} // verus!
