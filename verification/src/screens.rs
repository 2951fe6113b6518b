//! Monitors: the layout Hyprland reports, the focused monitor, the cursor
//! position, and the choice of the monitor to capture.

use vstd::prelude::*;
use vstd::string::*;
use crate::text::{
    chars_of, str_eq, trim_range, trimmed, is_ascii_digit, is_unicode_whitespace, leading_ws,
    trailing_ws,
};

verus! {

/// One output: position in the global layout, size, and name (`eDP-1`,
/// `HDMI-A-1`; empty if unknown).
#[derive(Debug, Clone)]
pub struct Screen {
    pub x: i32,
    pub y: i32,
    pub width: u32,
    pub height: u32,
    pub name: String,
}

pub struct ScreenView {
    pub x: i32,
    pub y: i32,
    pub width: u32,
    pub height: u32,
    pub name: Seq<char>,
}

impl View for Screen {
    type V = ScreenView;

    open spec fn view(&self) -> ScreenView {
        ScreenView { x: self.x, y: self.y, width: self.width, height: self.height, name: self.name@ }
    }
}

impl Screen {
    /// A copy of this screen.
    pub fn duplicate(&self) -> (r: Screen)
        ensures
            r@ == self@,
    {
        Screen {
            x: self.x,
            y: self.y,
            width: self.width,
            height: self.height,
            name: self.name.clone(),
        }
    }
}

/// Why no monitor layout could be had.
#[derive(Debug, Clone, Copy, PartialEq, Eq, Structural)]
pub enum LayoutError {
    /// `hyprctl monitors -j` did not print JSON.
    NotJson,
    /// The JSON is not an array.
    NotArray,
    /// No monitor with a non-zero size.
    NoMonitors,
}

/// What one element of `hyprctl monitors -j` holds, each field present only
/// when it has the expected JSON type (string, integer fitting `i64` /
/// `u64`, boolean).
#[derive(Debug, Clone)]
pub struct HyprMonitor {
    pub name: Option<String>,
    pub x: Option<i64>,
    pub y: Option<i64>,
    pub width: Option<u64>,
    pub height: Option<u64>,
    pub focused: Option<bool>,
}

pub struct HyprMonitorView {
    pub name: Option<Seq<char>>,
    pub x: Option<i64>,
    pub y: Option<i64>,
    pub width: Option<u64>,
    pub height: Option<u64>,
    pub focused: Option<bool>,
}

impl View for HyprMonitor {
    type V = HyprMonitorView;

    open spec fn view(&self) -> HyprMonitorView {
        HyprMonitorView {
            name: match self.name {
                Some(s) => Some(s@),
                None => None,
            },
            x: self.x,
            y: self.y,
            width: self.width,
            height: self.height,
            focused: self.focused,
        }
    }
}

/// The document `hyprctl monitors -j` printed.
pub enum HyprJson {
    NotJson,
    NotArray,
    Monitors(Vec<HyprMonitor>),
}

pub enum HyprJsonView {
    NotJson,
    NotArray,
    Monitors(Seq<HyprMonitorView>),
}

impl View for HyprJson {
    type V = HyprJsonView;

    open spec fn view(&self) -> HyprJsonView {
        match self {
            HyprJson::NotJson => HyprJsonView::NotJson,
            HyprJson::NotArray => HyprJsonView::NotArray,
            HyprJson::Monitors(v) => HyprJsonView::Monitors(v@.map_values(|m: HyprMonitor| m@)),
        }
    }
}

/// Name for what `serde_json` reads from the output of `hyprctl monitors -j`.
pub uninterp spec fn hypr_monitors_json(bytes: Seq<u8>) -> HyprJsonView;

/// Calls `serde_json::from_slice` into a `serde_json::Value` and, when it is
/// an array, reads `name` (`as_str`), `x`, `y` (`as_i64`), `width`,
/// `height` (`as_u64`) and `focused` (`as_bool`) of each element. Claims
/// only that the result is `hypr_monitors_json` of the bytes.
#[verifier::external_body]
fn read_hypr_monitors(bytes: &[u8]) -> (r: HyprJson)
    ensures
        r@ == hypr_monitors_json(bytes@),
{
    let Ok(v) = serde_json::from_slice::<serde_json::Value>(bytes) else { return HyprJson::NotJson };
    let Some(arr) = v.as_array() else { return HyprJson::NotArray };
    HyprJson::Monitors(arr.iter().map(|m| HyprMonitor {
        name: m["name"].as_str().map(|s| s.to_string()),
        x: m["x"].as_i64(),
        y: m["y"].as_i64(),
        width: m["width"].as_u64(),
        height: m["height"].as_u64(),
        focused: m["focused"].as_bool(),
    }).collect())
}

/// The screen an entry describes: missing fields read as empty name, zero
/// position and zero size; values are cast to the screen's integer types.
pub open spec fn screen_of(m: HyprMonitorView) -> ScreenView {
    ScreenView {
        x: (match m.x {
            Some(v) => v,
            None => 0,
        }) as i32,
        y: (match m.y {
            Some(v) => v,
            None => 0,
        }) as i32,
        width: (match m.width {
            Some(v) => v,
            None => 0,
        }) as u32,
        height: (match m.height {
            Some(v) => v,
            None => 0,
        }) as u32,
        name: match m.name {
            Some(s) => s,
            None => Seq::empty(),
        },
    }
}

/// A monitor entry without a size gives a screen of zero size (which the
/// layout drops); a position, size or name that is given is kept, the
/// numbers as long as they fit the screen's types.
pub proof fn lemma_screen_fields(m: HyprMonitorView)
    ensures
        m.width is None ==> screen_of(m).width == 0,
        m.height is None ==> screen_of(m).height == 0,
        m.x is None ==> screen_of(m).x == 0,
        m.y is None ==> screen_of(m).y == 0,
        m.name is None ==> screen_of(m).name.len() == 0,
        m.name matches Some(n) ==> screen_of(m).name == n,
        m.width matches Some(w) ==> (w <= u32::MAX ==> screen_of(m).width == w),
        m.height matches Some(h) ==> (h <= u32::MAX ==> screen_of(m).height == h),
        m.x matches Some(v) ==> (i32::MIN <= v <= i32::MAX ==> screen_of(m).x == v),
        m.y matches Some(v) ==> (i32::MIN <= v <= i32::MAX ==> screen_of(m).y == v),
{
}

pub open spec fn has_area(s: ScreenView) -> bool {
    s.width != 0 && s.height != 0
}

/// The screens of a monitor list, in order, without those of zero size.
pub open spec fn layout_of(ms: Seq<HyprMonitorView>) -> Seq<ScreenView>
    decreases ms.len(),
{
    if ms.len() == 0 {
        Seq::empty()
    } else {
        let rest = layout_of(ms.drop_last());
        let s = screen_of(ms.last());
        if has_area(s) {
            rest.push(s)
        } else {
            rest
        }
    }
}

/// The layout lists only screens of non-zero width and height, never more than there are
/// monitors, keeps every monitor that has an area in order (all of them,
/// mapped one for one, when none is empty), and appending a monitor of
/// zero size leaves it as it was.
pub proof fn lemma_layout(ms: Seq<HyprMonitorView>, m: HyprMonitorView)
    ensures
        forall|i: int|
            0 <= i < layout_of(ms).len() ==> (#[trigger] layout_of(ms)[i]).width != 0
                && layout_of(ms)[i].height != 0,
        layout_of(ms).len() <= ms.len(),
        (forall|i: int| 0 <= i < ms.len() ==> has_area(screen_of(#[trigger] ms[i])))
            ==> layout_of(ms) == ms.map_values(|x: HyprMonitorView| screen_of(x)),
        !has_area(screen_of(m)) ==> layout_of(ms.push(m)) == layout_of(ms),
        has_area(screen_of(m)) ==> layout_of(ms.push(m)) == layout_of(ms).push(screen_of(m)),
    decreases ms.len(),
{
    assert(ms.push(m).drop_last() =~= ms);
    if ms.len() > 0 {
        lemma_layout(ms.drop_last(), ms.last());
        if forall|i: int| 0 <= i < ms.len() ==> has_area(screen_of(#[trigger] ms[i])) {
            assert forall|i: int| 0 <= i < ms.drop_last().len() implies has_area(
                screen_of(#[trigger] ms.drop_last()[i]),
            ) by {
                assert(ms.drop_last()[i] == ms[i]);
            }
            assert(has_area(screen_of(ms[ms.len() - 1])));
            assert(layout_of(ms) =~= ms.map_values(|x: HyprMonitorView| screen_of(x)));
        }
    } else {
        assert(layout_of(ms) =~= ms.map_values(|x: HyprMonitorView| screen_of(x)));
    }
}

fn monitor_screen(m: &HyprMonitor) -> (r: Screen)
    ensures
        r@ == screen_of(m@),
{
    let name = match &m.name {
        Some(s) => s.clone(),
        None => String::new(),
    };
    let x = match m.x {
        Some(v) => v,
        None => 0,
    };
    let y = match m.y {
        Some(v) => v,
        None => 0,
    };
    let width = match m.width {
        Some(v) => v,
        None => 0,
    };
    let height = match m.height {
        Some(v) => v,
        None => 0,
    };
    Screen { x: x as i32, y: y as i32, width: width as u32, height: height as u32, name }
}

/// The monitor layout from the entries of `hyprctl monitors -j`: monitors of
/// zero size are skipped, and a layout with none left is an error.
pub fn screens_from_monitors(monitors: &Vec<HyprMonitor>) -> (r: Result<Vec<Screen>, LayoutError>)
    ensures
        match r {
            Ok(v) => v@.map_values(|s: Screen| s@) == layout_of(
                monitors@.map_values(|m: HyprMonitor| m@),
            ) && v@.len() > 0,
            Err(e) => e == LayoutError::NoMonitors && layout_of(
                monitors@.map_values(|m: HyprMonitor| m@),
            ).len() == 0,
        },
{
    let ghost ms = monitors@.map_values(|m: HyprMonitor| m@);
    let mut out: Vec<Screen> = Vec::new();
    let mut i: usize = 0;
    while i < monitors.len()
        invariant
            i <= monitors@.len() == ms.len(),
            ms == monitors@.map_values(|m: HyprMonitor| m@),
            out@.map_values(|s: Screen| s@) == layout_of(ms.take(i as int)),
        decreases monitors@.len() - i,
    {
        let s = monitor_screen(&monitors[i]);
        assert(ms.take(i + 1).drop_last() =~= ms.take(i as int));
        assert(ms.take(i + 1).last() == monitors@[i as int]@);
        if s.width != 0 && s.height != 0 {
            out.push(s);
        }
        assert(out@.map_values(|s: Screen| s@) =~= layout_of(ms.take(i + 1)));
        i = i + 1;
    }
    assert(ms.take(i as int) =~= ms);
    if out.len() == 0 {
        Err(LayoutError::NoMonitors)
    } else {
        Ok(out)
    }
}

/// The monitor layout from the output of `hyprctl monitors -j`.
pub fn screens_from_hypr_json(bytes: &[u8]) -> (r: Result<Vec<Screen>, LayoutError>)
    ensures
        match hypr_monitors_json(bytes@) {
            HyprJsonView::NotJson => r == Err::<Vec<Screen>, LayoutError>(LayoutError::NotJson),
            HyprJsonView::NotArray => r == Err::<Vec<Screen>, LayoutError>(LayoutError::NotArray),
            HyprJsonView::Monitors(ms) => match r {
                Ok(v) => v@.map_values(|s: Screen| s@) == layout_of(ms) && v@.len() > 0,
                Err(e) => e == LayoutError::NoMonitors && layout_of(ms).len() == 0,
            },
        },
{
    match read_hypr_monitors(bytes) {
        HyprJson::NotJson => Err(LayoutError::NotJson),
        HyprJson::NotArray => Err(LayoutError::NotArray),
        HyprJson::Monitors(ms) => screens_from_monitors(&ms),
    }
}

/// Index of the first screen named `name`.
pub open spec fn first_named(screens: Seq<ScreenView>, name: Seq<char>) -> Option<int> {
    if exists|i: int| 0 <= i < screens.len() && screens[i].name == name {
        Some(
            choose|i: int|
                0 <= i < screens.len() && screens[i].name == name && forall|j: int|
                    0 <= j < i ==> screens[j].name != name,
        )
    } else {
        None
    }
}

/// Walk the monitor entries in order; the first one marked focused whose
/// name (empty when missing) names a screen picks that screen.
pub open spec fn focused_in(ms: Seq<HyprMonitorView>, screens: Seq<ScreenView>) -> Option<int>
    decreases ms.len(),
{
    if ms.len() == 0 {
        None
    } else {
        let m = ms[0];
        let hit = if m.focused == Some(true) {
            first_named(
                screens,
                match m.name {
                    Some(n) => n,
                    None => Seq::empty(),
                },
            )
        } else {
            None
        };
        if hit is Some {
            hit
        } else {
            focused_in(ms.drop_first(), screens)
        }
    }
}

/// The focused screen is a screen named by a monitor entry marked focused,
/// the first screen of that name; with no entry marked focused there is
/// none.
pub proof fn lemma_focused_in(ms: Seq<HyprMonitorView>, screens: Seq<ScreenView>)
    ensures
        focused_in(ms, screens) matches Some(i) ==> (0 <= i < screens.len() && exists|k: int|
            0 <= k < ms.len() && (#[trigger] ms[k]).focused == Some(true) && screens[i].name
                == match ms[k].name {
                Some(n) => n,
                None => Seq::empty(),
            } && forall|j: int| 0 <= j < i ==> screens[j].name != screens[i].name),
        (forall|k: int| 0 <= k < ms.len() ==> (#[trigger] ms[k]).focused != Some(true))
            ==> focused_in(ms, screens) is None,
    decreases ms.len(),
{
    if ms.len() > 0 {
        lemma_focused_in(ms.drop_first(), screens);
        if let Some(i) = focused_in(ms, screens) {
            let m = ms[0];
            let nm = match m.name {
                Some(n) => n,
                None => Seq::empty(),
            };
            if m.focused == Some(true) && first_named(screens, nm) is Some {
                let x = choose|x: int| 0 <= x < screens.len() && screens[x].name == nm;
                lemma_first_named_exists(screens, nm, x);
                assert(0 <= i < screens.len() && screens[i].name == nm && forall|j: int|
                    0 <= j < i ==> screens[j].name != nm);
                assert(ms[0].focused == Some(true) && screens[i].name == match ms[0].name {
                    Some(n) => n,
                    None => Seq::empty(),
                });
            } else {
                let k = choose|k: int|
                    0 <= k < ms.drop_first().len() && (#[trigger] ms.drop_first()[k]).focused
                        == Some(true) && screens[i].name == match ms.drop_first()[k].name {
                        Some(n) => n,
                        None => Seq::empty(),
                    } && forall|j: int| 0 <= j < i ==> screens[j].name != screens[i].name;
                assert(ms[k + 1] == ms.drop_first()[k]);
            }
        }
        if forall|k: int| 0 <= k < ms.len() ==> (#[trigger] ms[k]).focused != Some(true) {
            assert forall|k: int| 0 <= k < ms.drop_first().len() implies (
            #[trigger] ms.drop_first()[k]).focused != Some(true) by {
                assert(ms.drop_first()[k] == ms[k + 1]);
            }
            assert(ms[0].focused != Some(true));
        }
    }
}

/// Some screen of a name is the first of that name.
proof fn lemma_first_named_exists(screens: Seq<ScreenView>, name: Seq<char>, k: int)
    requires
        0 <= k < screens.len(),
        screens[k].name == name,
    ensures
        exists|i: int|
            0 <= i < screens.len() && screens[i].name == name && forall|j: int|
                0 <= j < i ==> screens[j].name != name,
    decreases k,
{
    if exists|j: int| 0 <= j < k && screens[j].name == name {
        let j = choose|j: int| 0 <= j < k && screens[j].name == name;
        lemma_first_named_exists(screens, name, j);
    } else {
        assert(forall|j: int| 0 <= j < k ==> screens[j].name != name);
    }
}

fn find_named(screens: &Vec<Screen>, name: &String) -> (r: Option<usize>)
    ensures
        match r {
            Some(i) => first_named(screens@.map_values(|s: Screen| s@), name@) == Some(i as int),
            None => first_named(screens@.map_values(|s: Screen| s@), name@) is None,
        },
{
    let ghost sv = screens@.map_values(|s: Screen| s@);
    let mut i: usize = 0;
    while i < screens.len()
        invariant
            i <= screens@.len() == sv.len(),
            sv == screens@.map_values(|s: Screen| s@),
            forall|j: int| 0 <= j < i ==> sv[j].name != name@,
        decreases screens@.len() - i,
    {
        if str_eq(screens[i].name.as_str(), name.as_str()) {
            assert(sv[i as int].name == name@);
            let ghost c = choose|k: int|
                0 <= k < sv.len() && sv[k].name == name@ && forall|j: int|
                    0 <= j < k ==> sv[j].name != name@;
            assert(c == i) by {
                if c < i {
                } else if c > i {
                }
            }
            return Some(i);
        }
        i = i + 1;
    }
    None
}

/// The screen Hyprland marks as focused, given the monitor entries.
pub fn focused_screen(monitors: &Vec<HyprMonitor>, screens: &Vec<Screen>) -> (r: Option<usize>)
    ensures
        match r {
            Some(i) => focused_in(
                monitors@.map_values(|m: HyprMonitor| m@),
                screens@.map_values(|s: Screen| s@),
            ) == Some(i as int),
            None => focused_in(
                monitors@.map_values(|m: HyprMonitor| m@),
                screens@.map_values(|s: Screen| s@),
            ) is None,
        },
{
    let ghost ms = monitors@.map_values(|m: HyprMonitor| m@);
    let ghost sv = screens@.map_values(|s: Screen| s@);
    let mut i: usize = 0;
    assert(ms.skip(0) =~= ms);
    while i < monitors.len()
        invariant
            i <= monitors@.len() == ms.len(),
            ms == monitors@.map_values(|m: HyprMonitor| m@),
            sv == screens@.map_values(|s: Screen| s@),
            focused_in(ms, sv) == focused_in(ms.skip(i as int), sv),
        decreases monitors@.len() - i,
    {
        assert(ms.skip(i as int)[0] == monitors@[i as int]@);
        assert(ms.skip(i as int).drop_first() =~= ms.skip(i + 1));
        let m = &monitors[i];
        if m.focused == Some(true) {
            let empty = String::new();
            let name = match &m.name {
                Some(n) => n,
                None => &empty,
            };
            if let Some(k) = find_named(screens, name) {
                return Some(k);
            }
        }
        i = i + 1;
    }
    assert(ms.skip(i as int).len() == 0);
    None
}

/// The focused screen from the output of `hyprctl monitors -j`; `None` when
/// that output is not a JSON array or names no screen.
pub fn focused_screen_from_hypr_json(bytes: &[u8], screens: &Vec<Screen>) -> (r: Option<usize>)
    ensures
        match hypr_monitors_json(bytes@) {
            HyprJsonView::Monitors(ms) => match r {
                Some(i) => focused_in(ms, screens@.map_values(|s: Screen| s@)) == Some(i as int),
                None => focused_in(ms, screens@.map_values(|s: Screen| s@)) is None,
            },
            _ => r is None,
        },
{
    match read_hypr_monitors(bytes) {
        HyprJson::Monitors(ms) => focused_screen(&ms, screens),
        _ => None,
    }
}

/// The point lies on the screen (left/top inclusive, right/bottom exclusive).
pub open spec fn on_screen(s: ScreenView, px: i32, py: i32) -> bool {
    px >= s.x && py >= s.y && px < s.x + (s.width as i32) && py < s.y + (s.height as i32)
}

/// The edge sums the cursor test evaluates for this screen fit `i32`: the
/// right edge once the point is right of and below the top-left corner,
/// the bottom edge once it is also left of the right edge.
pub open spec fn probe_fits(s: ScreenView, px: i32, py: i32) -> bool {
    (px >= s.x && py >= s.y) ==> (i32::MIN <= s.x + (s.width as i32) <= i32::MAX && (px < s.x
        + (s.width as i32) ==> i32::MIN <= s.y + (s.height as i32) <= i32::MAX))
}

/// Every screen the scan for the cursor reaches (each one after screens
/// that do not hold the point) can be tested without overflow.
pub open spec fn scan_fits(screens: Seq<ScreenView>, px: i32, py: i32) -> bool {
    forall|i: int|
        0 <= i < screens.len() && (forall|j: int| 0 <= j < i ==> !on_screen(screens[j], px, py))
            ==> #[trigger] probe_fits(screens[i], px, py)
}

/// The monitor to capture for the cursor: the only one; else the focused
/// one; else the first containing the cursor; else the first.
pub open spec fn cursor_choice(
    screens: Seq<ScreenView>,
    focused: Option<int>,
    cursor: (i32, i32),
) -> Option<int> {
    if screens.len() == 1 {
        Some(0)
    } else if focused is Some {
        focused
    } else if exists|i: int| 0 <= i < screens.len() && on_screen(screens[i], cursor.0, cursor.1) {
        Some(
            choose|i: int|
                0 <= i < screens.len() && on_screen(screens[i], cursor.0, cursor.1) && forall|
                    j: int,
                | 0 <= j < i ==> !on_screen(screens[j], cursor.0, cursor.1),
        )
    } else if screens.len() > 0 {
        Some(0)
    } else {
        None
    }
}

/// A lone screen is always the one; otherwise the focused screen, when
/// known, wins; otherwise a screen holding the cursor is found whenever one
/// exists, and it is the first of them; with none holding it, the first
/// screen is used, and with no screens there is no choice.
pub proof fn lemma_cursor_choice(screens: Seq<ScreenView>, f: int, cursor: (i32, i32), k: int)
    ensures
        screens.len() == 1 ==> cursor_choice(screens, None, cursor) == Some(0int)
            && cursor_choice(screens, Some(f), cursor) == Some(0int),
        screens.len() != 1 ==> cursor_choice(screens, Some(f), cursor) == Some(f),
        screens.len() == 0 ==> cursor_choice(screens, None, cursor) is None,
        screens.len() > 1 && 0 <= k < screens.len() && on_screen(screens[k], cursor.0, cursor.1)
            ==> (cursor_choice(screens, None, cursor) matches Some(i) && 0 <= i <= k && on_screen(
            screens[i],
            cursor.0,
            cursor.1,
        ) && forall|j: int| 0 <= j < i ==> !on_screen(screens[j], cursor.0, cursor.1)),
        screens.len() > 1 && (forall|j: int|
            0 <= j < screens.len() ==> !on_screen(screens[j], cursor.0, cursor.1))
            ==> cursor_choice(screens, None, cursor) == Some(0int),
{
    if screens.len() > 1 && 0 <= k < screens.len() && on_screen(screens[k], cursor.0, cursor.1) {
        let i = choose|i: int|
            0 <= i < screens.len() && on_screen(screens[i], cursor.0, cursor.1) && forall|j: int|
                0 <= j < i ==> !on_screen(screens[j], cursor.0, cursor.1);
        lemma_first_on_screen_exists(screens, cursor, k);
        assert(0 <= i <= k) by {
            if i > k {
                assert(!on_screen(screens[k], cursor.0, cursor.1));
            }
        }
    }
}

/// Some screen holding the cursor is the first such.
proof fn lemma_first_on_screen_exists(screens: Seq<ScreenView>, cursor: (i32, i32), k: int)
    requires
        0 <= k < screens.len(),
        on_screen(screens[k], cursor.0, cursor.1),
    ensures
        exists|i: int|
            0 <= i < screens.len() && on_screen(screens[i], cursor.0, cursor.1) && forall|j: int|
                0 <= j < i ==> !on_screen(screens[j], cursor.0, cursor.1),
    decreases k,
{
    if exists|j: int| 0 <= j < k && on_screen(screens[j], cursor.0, cursor.1) {
        let j = choose|j: int| 0 <= j < k && on_screen(screens[j], cursor.0, cursor.1);
        lemma_first_on_screen_exists(screens, cursor, j);
    } else {
        assert(forall|j: int| 0 <= j < k ==> !on_screen(screens[j], cursor.0, cursor.1));
    }
}

/// Pick the monitor the cursor is on: `focused` is the focused screen (when
/// Hyprland told one), `cursor` the cursor position. `None` when there is
/// no screen at all.
pub fn choose_cursor_screen(screens: &Vec<Screen>, focused: Option<usize>, cursor: (i32, i32)) -> (r:
    Option<usize>)
    requires
        screens@.len() != 1 && focused is None ==> scan_fits(
            screens@.map_values(|s: Screen| s@),
            cursor.0,
            cursor.1,
        ),
        focused matches Some(f) ==> f < screens@.len(),
    ensures
        match r {
            Some(i) => cursor_choice(
                screens@.map_values(|s: Screen| s@),
                match focused {
                    Some(f) => Some(f as int),
                    None => None,
                },
                cursor,
            ) == Some(i as int),
            None => cursor_choice(
                screens@.map_values(|s: Screen| s@),
                match focused {
                    Some(f) => Some(f as int),
                    None => None,
                },
                cursor,
            ) is None,
        },
{
    let ghost sv = screens@.map_values(|s: Screen| s@);
    if screens.len() == 1 {
        return Some(0);
    }
    if let Some(f) = focused {
        return Some(f);
    }
    let (px, py) = cursor;
    let mut i: usize = 0;
    while i < screens.len()
        invariant
            i <= screens@.len() == sv.len(),
            sv == screens@.map_values(|s: Screen| s@),
            scan_fits(sv, px, py),
            forall|j: int| 0 <= j < i ==> !on_screen(#[trigger] sv[j], px, py),
            screens@.len() != 1,
            focused is None,
            cursor == (px, py),
        decreases screens@.len() - i,
    {
        let s = &screens[i];
        assert(sv[i as int] == s@);
        assert(probe_fits(sv[i as int], px, py));
        if px >= s.x && py >= s.y && px < s.x + s.width as i32 && py < s.y + s.height as i32 {
            assert(on_screen(sv[i as int], px, py));
            let ghost c = choose|k: int|
                0 <= k < sv.len() && on_screen(sv[k], px, py) && forall|j: int|
                    0 <= j < k ==> !on_screen(sv[j], px, py);
            assert(c == i) by {
                if c < i {
                } else if c > i {
                }
            }
            return Some(i);
        }
        i = i + 1;
    }
    if screens.len() > 0 {
        Some(0)
    } else {
        None
    }
}

/// Value of a run of ASCII digits.
pub open spec fn digits_value(s: Seq<char>) -> int
    decreases s.len(),
{
    if s.len() == 0 {
        0
    } else {
        digits_value(s.drop_last()) * 10 + (s.last() as int - '0' as int)
    }
}

pub open spec fn all_digits(s: Seq<char>) -> bool {
    forall|i: int| 0 <= i < s.len() ==> is_ascii_digit(#[trigger] s[i])
}

/// `str::parse::<i32>`: an optional `+` or `-`, then one or more ASCII
/// digits, the value within `i32`.
pub open spec fn spec_parse_i32(s: Seq<char>) -> Option<i32> {
    let (neg, d) = if s.len() > 0 && s[0] == '-' {
        (true, s.drop_first())
    } else if s.len() > 0 && s[0] == '+' {
        (false, s.drop_first())
    } else {
        (false, s)
    };
    let v = if neg {
        -digits_value(d)
    } else {
        digits_value(d)
    };
    if d.len() > 0 && all_digits(d) && i32::MIN <= v <= i32::MAX {
        Some(v as i32)
    } else {
        None
    }
}

proof fn lemma_digits_value_nonneg(s: Seq<char>)
    requires
        all_digits(s),
    ensures
        digits_value(s) >= 0,
    decreases s.len(),
{
    if s.len() > 0 {
        assert(all_digits(s.drop_last())) by {
            assert forall|i: int| 0 <= i < s.drop_last().len() implies is_ascii_digit(
                #[trigger] s.drop_last()[i],
            ) by {
                assert(s.drop_last()[i] == s[i]);
            }
        }
        assert(is_ascii_digit(s[s.len() - 1]));
        lemma_digits_value_nonneg(s.drop_last());
    }
}

/// `spec_parse_i32` once the sign is split off: `neg` and the digits `d`.
pub open spec fn signed_digits_value(neg: bool, d: Seq<char>) -> Option<i32> {
    let v = if neg {
        -digits_value(d)
    } else {
        digits_value(d)
    };
    if d.len() > 0 && all_digits(d) && i32::MIN <= v <= i32::MAX {
        Some(v as i32)
    } else {
        None
    }
}

/// Parse `v[a..b]` as an `i32`.
fn parse_i32_range(v: &Vec<char>, a: usize, b: usize) -> (r: Option<i32>)
    requires
        a <= b <= v@.len(),
    ensures
        r == spec_parse_i32(v@.subrange(a as int, b as int)),
{
    let ghost s = v@.subrange(a as int, b as int);
    let mut start = a;
    let mut neg = false;
    if a < b && v[a] == '-' {
        neg = true;
        start = a + 1;
    } else if a < b && v[a] == '+' {
        start = a + 1;
    }
    let ghost d = v@.subrange(start as int, b as int);
    assert(start > a ==> d =~= s.drop_first());
    assert(start == a ==> d =~= s);
    assert(spec_parse_i32(s) == signed_digits_value(neg, d));
    if start == b {
        return None;
    }
    // Magnitude so far; bail out once it is past every i32.
    let mut acc: i64 = 0;
    let mut i = start;
    while i < b
        invariant
            start <= i <= b <= v@.len(),
            start < b,
            d == v@.subrange(start as int, b as int),
            spec_parse_i32(v@.subrange(a as int, b as int)) == signed_digits_value(neg, d),
            all_digits(v@.subrange(start as int, i as int)),
            acc == digits_value(v@.subrange(start as int, i as int)),
            0 <= acc <= 2147483648,
        decreases b - i,
    {
        let c = v[i];
        assert(v@.subrange(start as int, i + 1).drop_last() =~= v@.subrange(start as int, i as int));
        if !('0' <= c && c <= '9') {
            assert(!is_ascii_digit(d[i - start]));
            assert(!all_digits(d));
            return None;
        }
        let digit = (c as u32 - '0' as u32) as i64;
        let next = acc * 10 + digit;
        assert(all_digits(v@.subrange(start as int, i + 1))) by {
            assert forall|k: int| 0 <= k < i + 1 - start implies is_ascii_digit(
                #[trigger] v@.subrange(start as int, i + 1)[k],
            ) by {
                if k < i - start {
                    assert(v@.subrange(start as int, i + 1)[k] == v@.subrange(
                        start as int,
                        i as int,
                    )[k]);
                }
            }
        }
        assert(next == digits_value(v@.subrange(start as int, i + 1)));
        if next > 2147483648 {
            // Every longer run of digits is at least as large.
            proof {
                assert(d.take(i + 1 - start) =~= v@.subrange(start as int, i + 1));
                lemma_digits_value_grows(d, i + 1 - start);
            }
            return None;
        }
        acc = next;
        i = i + 1;
    }
    assert(v@.subrange(start as int, i as int) =~= d);
    if neg {
        Some((0 - acc) as i32)
    } else if acc <= 2147483647 {
        Some(acc as i32)
    } else {
        None
    }
}

/// Appending digits never lowers the value of a digit prefix.
proof fn lemma_digits_value_grows(d: Seq<char>, k: int)
    requires
        0 <= k <= d.len(),
        all_digits(d.take(k)),
    ensures
        all_digits(d) ==> digits_value(d) >= digits_value(d.take(k)),
    decreases d.len() - k,
{
    if k < d.len() && all_digits(d) {
        assert(d.take(k + 1).drop_last() =~= d.take(k));
        assert(is_ascii_digit(d[k]));
        assert(all_digits(d.take(k + 1))) by {
            assert forall|i: int| 0 <= i < k + 1 implies is_ascii_digit(#[trigger] d.take(k + 1)[i]) by {
                assert(d.take(k + 1)[i] == d[i]);
            }
        }
        lemma_digits_value_nonneg(d.take(k));
        lemma_digits_value_grows(d, k + 1);
    }
    if k == d.len() {
        assert(d.take(k) =~= d);
    }
}

/// The pieces of `s` around its first two commas, as `str::split(',')`
/// yields them first and second.
pub open spec fn first_comma(s: Seq<char>) -> Option<int> {
    if exists|i: int| 0 <= i < s.len() && s[i] == ',' {
        Some(
            choose|i: int|
                0 <= i < s.len() && s[i] == ',' && forall|j: int| 0 <= j < i ==> s[j] != ',',
        )
    } else {
        None
    }
}

/// First and second comma-separated field of `s` (the second absent when
/// there is no comma).
pub open spec fn two_fields(s: Seq<char>) -> (Seq<char>, Option<Seq<char>>) {
    match first_comma(s) {
        None => (s, None),
        Some(i) => {
            let rest = s.skip(i + 1);
            (
                s.take(i),
                Some(
                    match first_comma(rest) {
                        Some(j) => rest.take(j),
                        None => rest,
                    },
                ),
            )
        },
    }
}

/// What `hyprctl cursorpos` prints parsed as `x, y`.
pub open spec fn spec_parse_cursorpos(s: Seq<char>) -> Option<(i32, i32)> {
    let (a, b) = two_fields(s);
    match (spec_parse_i32(trimmed(a)), b) {
        (Some(x), Some(b)) => match spec_parse_i32(trimmed(b)) {
            Some(y) => Some((x, y)),
            None => None,
        },
        _ => None,
    }
}

/// `hyprctl cursorpos` prints `x, y`: two runs of digits, the first
/// optionally negative, around a comma and a space. Such text reads back as
/// the two decimal values, in that order.
pub proof fn lemma_cursorpos_reads_back(a: Seq<char>, b: Seq<char>, neg: bool)
    requires
        a.len() > 0,
        b.len() > 0,
        all_digits(a),
        all_digits(b),
        digits_value(a) <= i32::MAX,
        digits_value(b) <= i32::MAX,
    ensures
        spec_parse_cursorpos((if neg { seq!['-'] } else { Seq::empty() }) + a + seq![',', ' '] + b)
            == Some(
            (
                (if neg {
                    -digits_value(a)
                } else {
                    digits_value(a)
                }) as i32,
                digits_value(b) as i32,
            ),
        ),
{
    let x = (if neg { seq!['-'] } else { Seq::<char>::empty() }) + a;
    let s = x + seq![',', ' '] + b;
    let c = x.len() as int;
    lemma_digits_value_nonneg(a);
    lemma_digits_value_nonneg(b);
    assert(is_ascii_digit(a[0]) && is_ascii_digit(a[a.len() - 1]));
    assert(is_ascii_digit(b[0]) && is_ascii_digit(b[b.len() - 1]));
    assert forall|j: int| 0 <= j < c implies s[j] != ',' by {
        assert(s[j] == x[j]);
        if neg && j == 0 {
        } else {
            let o: int = if neg { 1 } else { 0 };
            assert(x[j] == a[j - o]);
            assert(is_ascii_digit(a[j - o]));
        }
    }
    assert(s[c] == ',');
    let fc = choose|i: int| 0 <= i < s.len() && s[i] == ',' && forall|j: int| 0 <= j < i ==> s[j] != ',';
    assert(fc == c) by {
        if fc < c {
        } else if fc > c {
        }
    }
    assert(first_comma(s) == Some(c));
    assert(s.take(c) =~= x);
    let rest = s.skip(c + 1);
    assert(rest =~= seq![' '] + b);
    assert forall|j: int| 0 <= j < rest.len() implies rest[j] != ',' by {
        if j > 0 {
            assert(rest[j] == b[j - 1]);
            assert(is_ascii_digit(b[j - 1]));
        }
    }
    assert(first_comma(rest) is None);
    // trimming
    assert(!is_unicode_whitespace(x[0]) && !is_unicode_whitespace(x.last()));
    assert(leading_ws(x) == 0 && trailing_ws(x) == 0);
    assert(trimmed(x) =~= x);
    assert(rest[0] == ' ');
    assert(leading_ws(rest.drop_first()) == 0);
    assert(rest.drop_first() =~= b);
    assert(leading_ws(rest) == 1);
    assert(trailing_ws(rest) == 0);
    assert(trimmed(rest) =~= b);
    if neg {
        assert(x.drop_first() =~= a);
    }
}

fn find_comma(v: &Vec<char>, from: usize) -> (r: Option<usize>)
    requires
        from <= v@.len(),
    ensures
        match r {
            Some(i) => from <= i < v@.len() && first_comma(v@.skip(from as int)) == Some(
                i - from,
            ),
            None => first_comma(v@.skip(from as int)) is None,
        },
{
    let ghost s = v@.skip(from as int);
    let mut i = from;
    while i < v.len()
        invariant
            from <= i <= v@.len(),
            s == v@.skip(from as int),
            forall|j: int| 0 <= j < i - from ==> s[j] != ',',
        decreases v@.len() - i,
    {
        if v[i] == ',' {
            assert(s[i - from] == ',');
            let ghost c = choose|k: int|
                0 <= k < s.len() && s[k] == ',' && forall|j: int| 0 <= j < k ==> s[j] != ',';
            assert(c == i - from) by {
                if c < i - from {
                } else if c > i - from {
                }
            }
            return Some(i);
        }
        i = i + 1;
    }
    None
}

fn sub_chars(v: &Vec<char>, a: usize, b: usize) -> (r: Vec<char>)
    requires
        a <= b <= v@.len(),
    ensures
        r@ == v@.subrange(a as int, b as int),
{
    let mut r: Vec<char> = Vec::new();
    let mut i = a;
    while i < b
        invariant
            a <= i <= b <= v@.len(),
            r@ == v@.subrange(a as int, i as int),
        decreases b - i,
    {
        r.push(v[i]);
        i = i + 1;
        assert(r@ =~= v@.subrange(a as int, i as int));
    }
    r
}

fn parse_trimmed_i32(v: &Vec<char>) -> (r: Option<i32>)
    ensures
        r == spec_parse_i32(trimmed(v@)),
{
    let (a, b) = trim_range(v);
    parse_i32_range(v, a, b)
}

/// The second field: after the comma at `i`, up to the next comma.
fn second_field(v: &Vec<char>, i: usize) -> (r: Vec<char>)
    requires
        i < v.len(),
    ensures
        r@ == match first_comma(v@.skip(i + 1)) {
            Some(j) => v@.skip(i + 1).take(j),
            None => v@.skip(i + 1),
        },
{
    match find_comma(v, i + 1) {
        Some(j) => {
            let r = sub_chars(v, i + 1, j);
            assert(r@ =~= v@.skip(i + 1).take(j - (i + 1)));
            r
        },
        None => {
            let r = sub_chars(v, i + 1, v.len());
            assert(r@ =~= v@.skip(i + 1));
            r
        },
    }
}

/// Parse what `hyprctl cursorpos` prints (`x, y`); fields past the second
/// are ignored.
pub fn parse_cursorpos(s: &str) -> (r: Option<(i32, i32)>)
    ensures
        r == spec_parse_cursorpos(s@),
{
    let v = chars_of(s);
    assert(v@.skip(0) =~= v@);
    match find_comma(&v, 0) {
        None => None,
        Some(i) => {
            let first = sub_chars(&v, 0, i);
            assert(first@ =~= v@.take(i as int));
            let second = second_field(&v, i);
            assert(two_fields(s@) == (first@, Some(second@)));
            match parse_trimmed_i32(&first) {
                None => None,
                Some(x) => match parse_trimmed_i32(&second) {
                    Some(y) => Some((x, y)),
                    None => None,
                },
            }
        },
    }
}

/// The layout to use: Hyprland's when it has one, else the outputs the
/// screencopy connection lists, else Hyprland's error.
pub fn screens_or_outputs<E>(hypr: Result<Vec<Screen>, E>, outputs: Vec<Screen>) -> (r: Result<
    Vec<Screen>,
    E,
>)
    ensures
        match hypr {
            Ok(v) => r == Ok::<Vec<Screen>, E>(v),
            Err(e) => if outputs@.len() > 0 {
                r == Ok::<Vec<Screen>, E>(outputs)
            } else {
                r == Err::<Vec<Screen>, E>(e)
            },
        },
{
    match hypr {
        Ok(v) => Ok(v),
        Err(e) => {
            if outputs.len() > 0 {
                Ok(outputs)
            } else {
                Err(e)
            }
        },
    }
}

/// A compositor output as the overlay sees it: its name, when known, and
/// the position of its top-left corner in the global layout.
#[derive(Debug, Clone)]
pub struct OutputDesc {
    pub name: Option<String>,
    pub x: i32,
    pub y: i32,
}

/// Some output is named `name` (an empty name matches nothing).
pub open spec fn some_named(outs: Seq<OutputDesc>, name: Seq<char>) -> bool {
    name.len() > 0 && exists|j: int| 0 <= j < outs.len() && #[trigger] outs[j].name_is(name)
}

impl OutputDesc {
    pub open spec fn name_is(self, name: Seq<char>) -> bool {
        self.name matches Some(n) && n@ == name
    }

    pub open spec fn at(self, origin: (i32, i32)) -> bool {
        self.x == origin.0 && self.y == origin.1
    }
}

/// The output to put the overlay on: the first one named `name`; failing
/// that, the last one whose corner is at `origin`; failing that, none.
pub fn pick_output(outs: &Vec<OutputDesc>, origin: (i32, i32), name: &str) -> (r: Option<usize>)
    ensures
        match r {
            Some(i) => i < outs@.len() && if some_named(outs@, name@) {
                outs@[i as int].name_is(name@) && forall|j: int|
                    0 <= j < i ==> !(#[trigger] outs@[j]).name_is(name@)
            } else {
                outs@[i as int].at(origin) && forall|j: int|
                    i < j < outs@.len() ==> !(#[trigger] outs@[j]).at(origin)
            },
            None => !some_named(outs@, name@) && forall|j: int|
                0 <= j < outs@.len() ==> !(#[trigger] outs@[j]).at(origin),
        },
{
    let want = String::from_str(name);
    let named = chars_of(name).len() > 0;
    let mut by_origin: Option<usize> = None;
    let mut i: usize = 0;
    while i < outs.len()
        invariant
            i <= outs@.len(),
            want@ == name@,
            named == (name@.len() > 0),
            named ==> forall|j: int| 0 <= j < i ==> !(#[trigger] outs@[j]).name_is(name@),
            match by_origin {
                Some(k) => k < i && outs@[k as int].at(origin) && forall|j: int|
                    k < j < i ==> !(#[trigger] outs@[j]).at(origin),
                None => forall|j: int| 0 <= j < i ==> !(#[trigger] outs@[j]).at(origin),
            },
        decreases outs@.len() - i,
    {
        let o = &outs[i];
        if named {
            if let Some(n) = &o.name {
                if str_eq(n.as_str(), want.as_str()) {
                    assert(outs@[i as int].name_is(name@));
                    return Some(i);
                }
            }
        }
        if o.x == origin.0 && o.y == origin.1 {
            by_origin = Some(i);
        }
        i = i + 1;
    }
    by_origin
}

} // verus!
