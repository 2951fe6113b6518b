//! Paths from the configuration: `~` expansion, the auto-save file name, and
//! the on-disk "latest screenshot" copy; and the plain sections of the
//! configuration file.
//!
//! Paths are handled as strings with the joining rules of `PathBuf::push` on
//! Unix: a path that starts with `/` replaces the base, and a separator is
//! added only when the base does not already end with one.

use vstd::prelude::*;
use vstd::string::*;
use std::fmt::Write;
use crate::text::{chars_of, trim_range, trimmed};

verus! {

/// `[capture]` section of the configuration.
#[derive(Debug, Clone, Copy, PartialEq, Eq, Structural)]
pub struct CaptureCfg {
    /// Capture the mouse pointer into the screenshot.
    pub include_cursor: bool,
}

impl Default for CaptureCfg {
    fn default() -> (c: CaptureCfg)
        ensures
            !c.include_cursor,
    {
        CaptureCfg { include_cursor: false }
    }
}

/// `[clipboard]` section of the configuration.
#[derive(Debug, Clone)]
pub struct Clipboard {
    /// When copying to the clipboard, also write the final image to this path
    /// on disk, so that tools which do not read images from the clipboard can
    /// be pointed at the file. Empty (after trimming) disables it. The path
    /// itself is never put on the clipboard.
    pub latest_path: String,
}

impl Default for Clipboard {
    fn default() -> (c: Clipboard)
        ensures
            c.latest_path@ == "~/Pictures/screenshots/rustshot-latest.png"@,
    {
        Clipboard { latest_path: String::from_str("~/Pictures/screenshots/rustshot-latest.png") }
    }
}

/// `base` joined with `p` as `PathBuf::join` does on Unix.
pub open spec fn path_join(base: Seq<char>, p: Seq<char>) -> Seq<char> {
    if p.len() > 0 && p[0] == '/' {
        p
    } else if base.len() == 0 || base.last() == '/' {
        base + p
    } else {
        base + seq!['/'] + p
    }
}

/// Joining ends with the joined part. An absolute part replaces the base;
/// a relative one follows the whole base, with one `/` put between them
/// only when the base is non-empty and does not already end in `/`.
pub proof fn lemma_path_join(base: Seq<char>, p: Seq<char>)
    ensures
        ({
            let r = path_join(base, p);
            let sep: int = if base.len() > 0 && base.last() != '/' { 1 } else { 0 };
            &&& p.is_suffix_of(r)
            &&& (p.len() > 0 && p[0] == '/' ==> r == p)
            &&& (!(p.len() > 0 && p[0] == '/') ==> {
                &&& r.len() == base.len() + sep + p.len()
                &&& r.subrange(0, base.len() as int) == base
                &&& (sep == 1 ==> r[base.len() as int] == '/')
            })
        }),
{
    let r = path_join(base, p);
    if !(p.len() > 0 && p[0] == '/') {
        assert(r.subrange(0, base.len() as int) =~= base);
        assert(r.subrange(r.len() - p.len(), r.len() as int) =~= p);
    } else {
        assert(r.subrange(0, r.len() as int) =~= p);
    }
}

pub fn join_path(base: &str, p: &str) -> (r: String)
    ensures
        r@ == path_join(base@, p@),
{
    let pc = chars_of(p);
    if pc.len() > 0 && pc[0] == '/' {
        return String::from_str(p);
    }
    let bc = chars_of(base);
    let mut r = String::from_str(base);
    if bc.len() > 0 && bc[bc.len() - 1] != '/' {
        let sep = "/";
        proof {
            reveal_strlit("/");
        }
        r.append(sep);
    }
    r.append(p);
    r
}

/// `p` with a leading `~` (alone, or followed by `/`) replaced by the home
/// directory, when one is known; any other path is kept as it is.
pub open spec fn tilde_expanded(p: Seq<char>, home: Option<Seq<char>>) -> Seq<char> {
    match home {
        None => p,
        Some(h) => if p.len() >= 2 && p[0] == '~' && p[1] == '/' {
            path_join(h, p.subrange(2, p.len() as int))
        } else if p == seq!['~'] {
            h
        } else {
            p
        },
    }
}

/// Tilde expansion changes only a path that is `~` alone or starts with
/// `~/`, and only when a home directory is known: `~` becomes the home
/// directory and `~/rest` the home directory joined with `rest`.
pub proof fn lemma_tilde_expansion(p: Seq<char>, h: Seq<char>, rest: Seq<char>)
    ensures
        tilde_expanded(p, None) == p,
        !(p.len() > 0 && p[0] == '~') ==> tilde_expanded(p, Some(h)) == p,
        tilde_expanded(seq!['~'], Some(h)) == h,
        tilde_expanded(seq!['~', '/'] + rest, Some(h)) == path_join(h, rest),
        p.len() >= 2 && p[0] == '~' && p[1] != '/' ==> tilde_expanded(p, Some(h)) == p,
{
    let q = seq!['~', '/'] + rest;
    assert(q.subrange(2, q.len() as int) =~= rest);
    if p.len() >= 2 && p[1] != '/' {
        assert(p != seq!['~']);
    }
}

/// The rest of `s` after `prefix`, if `s` starts with it (as
/// `str::strip_prefix` gives it).
fn strip_prefix_str<'a>(s: &'a str, prefix: &str) -> (r: Option<&'a str>)
    ensures
        match r {
            Some(rest) => s@ == prefix@ + rest@,
            None => !prefix@.is_prefix_of(s@),
        },
{
    let sv = chars_of(s);
    let pv = chars_of(prefix);
    if pv.len() > sv.len() {
        return None;
    }
    let mut i: usize = 0;
    while i < pv.len()
        invariant
            pv@.len() <= sv@.len(),
            sv@ == s@,
            pv@ == prefix@,
            i <= pv@.len(),
            forall|j: int| 0 <= j < i ==> sv@[j] == pv@[j],
        decreases pv@.len() - i,
    {
        if sv[i] != pv[i] {
            assert(s@.subrange(0, prefix@.len() as int)[i as int] != prefix@[i as int]);
            return None;
        }
        i += 1;
    }
    let rest = s.substring_char(pv.len(), sv.len());
    assert(s@ =~= prefix@ + rest@);
    Some(rest)
}

/// Expand `~` in `p` against the given home directory.
pub fn expand_tilde_with(p: &str, home: Option<&str>) -> (r: String)
    ensures
        r@ == tilde_expanded(p@, match home {
            Some(h) => Some(h@),
            None => None,
        }),
{
    let h = match home {
        Some(h) => h,
        None => return String::from_str(p),
    };
    let pre = "~/";
    proof {
        reveal_strlit("~/");
    }
    if let Some(rest) = strip_prefix_str(p, pre) {
        assert(rest@ == p@.subrange(2, p@.len() as int)) by {
            assert(p@ =~= pre@ + rest@);
        }
        return join_path(h, rest);
    }
    assert(!(p@.len() >= 2 && p@[0] == '~' && p@[1] == '/')) by {
        if p@.len() >= 2 && p@[0] == '~' && p@[1] == '/' {
            assert(pre@.is_prefix_of(p@));
        }
    }
    let pc = chars_of(p);
    if pc.len() == 1 && pc[0] == '~' {
        assert(p@ =~= seq!['~']);
        return String::from_str(h);
    }
    String::from_str(p)
}

/// The home directory (`dirs::home_dir`), as a string; it depends on the
/// environment and the user database, so nothing is claimed of it. Paths
/// here are Unicode strings, so a home directory that is not valid UTF-8
/// comes out with its invalid bytes replaced (`to_string_lossy`).
#[verifier::external_body]
fn home_dir() -> Option<String> {
    match dirs::home_dir() {
        Some(h) => Some(h.to_string_lossy().into_owned()),
        None => None,
    }
}

/// `p` is `~` alone or starts with `~/`: the forms that expand.
pub open spec fn has_home_prefix(p: Seq<char>) -> bool {
    p == seq!['~'] || (p.len() >= 2 && p[0] == '~' && p[1] == '/')
}

/// `r` is `p` with `~` expanded against some home directory, or against
/// none (which leaves `p` as it is).
pub open spec fn expands_to(p: Seq<char>, r: Seq<char>) -> bool {
    exists|home: Option<Seq<char>>| #[trigger] tilde_expanded(p, home) == r
}

/// Expand `~` in `p` against the current user's home directory, as
/// `expand_tilde_with` does with the home directory that `dirs` reports
/// (none when it reports none). Whatever the home directory is, a path of
/// any other form is returned unchanged.
pub fn expand_tilde(p: &str) -> (r: String)
    ensures
        expands_to(p@, r@),
        !has_home_prefix(p@) ==> r@ == p@,
{
    let home = home_dir();
    let r = match &home {
        Some(h) => expand_tilde_with(p, Some(h.as_str())),
        None => expand_tilde_with(p, None),
    };
    let ghost hv: Option<Seq<char>> = match home {
        Some(h) => Some(h@),
        None => None,
    };
    assert(tilde_expanded(p@, hv) == r@);
    r
}

/// Name for chrono's rendering of an instant under a strftime-style
/// pattern: the instant `secs` seconds and `nanos` nanoseconds after the
/// Unix epoch, seen at a UTC offset of `offset` seconds, formatted by
/// `DateTime::format`. `None` when chrono cannot represent that instant or
/// offset, or its formatter fails (an unknown specifier, an item it cannot
/// write such as `%#z`, or a year it cannot write for some items).
pub uninterp spec fn strftime_at(pattern: Seq<char>, secs: i64, nanos: u32, offset: i32) -> Option<
    Seq<char>,
>;

/// Formats an instant with chrono: `DateTime::from_timestamp(secs, nanos)`
/// seen in `FixedOffset::east_opt(offset)`, then `format(pattern)` written
/// into a `String`; `None` when either constructor refuses or the formatter
/// fails. A pattern without `%` holds only literal and space items, which
/// chrono writes out as they stand.
#[verifier::external_body]
fn format_instant(pattern: &str, secs: i64, nanos: u32, offset: i32) -> (r: Option<String>)
    ensures
        match r {
            Some(s) => strftime_at(pattern@, secs, nanos, offset) == Some(s@),
            None => strftime_at(pattern@, secs, nanos, offset) is None,
        },
        !pattern@.contains('%') ==> (r matches Some(s) ==> s@ == pattern@),
{
    let tz = chrono::FixedOffset::east_opt(offset)?;
    let t = chrono::DateTime::from_timestamp(secs, nanos)?.with_timezone(&tz);
    let mut out = String::new();
    write!(out, "{}", t.format(pattern)).ok()?;
    Some(out)
}

/// The local time now (`chrono::Local::now`): seconds and nanoseconds since
/// the Unix epoch, and the local UTC offset in seconds. It depends on the
/// clock and the time zone, so nothing is claimed of it.
#[verifier::external_body]
fn local_now() -> (i64, u32, i32) {
    let now = chrono::Local::now();
    (now.timestamp(), now.timestamp_subsec_nanos(), now.offset().local_minus_utc())
}

/// `r` is `dir` with `~` expanded against some home directory (or none),
/// joined with chrono's rendering of some instant under `pattern`; with no
/// `%` in `pattern`, that rendering is `pattern` itself.
pub open spec fn auto_path_for(dir: Seq<char>, pattern: Seq<char>, r: Seq<char>) -> bool {
    exists|home: Option<Seq<char>>, secs: i64, nanos: u32, offset: i32, name: Seq<char>|
        #![trigger strftime_at(pattern, secs, nanos, offset), path_join(tilde_expanded(dir, home), name)]
        strftime_at(pattern, secs, nanos, offset) == Some(name) && path_join(
            tilde_expanded(dir, home),
            name,
        ) == r && (!pattern.contains('%') ==> name == pattern)
}

/// chrono cannot render some instant under `pattern`.
pub open spec fn fails_at_some_instant(pattern: Seq<char>) -> bool {
    exists|secs: i64, nanos: u32, offset: i32| #[trigger] strftime_at(pattern, secs, nanos, offset) is None
}

/// The auto-save path: `save_dir` with `~` expanded against the user's home
/// directory (whichever it is), joined with the local time now formatted by
/// the strftime-style `pattern`. `None` when chrono cannot format the time
/// now under `pattern`.
pub fn auto_save_path(save_dir: &str, pattern: &str) -> (r: Option<String>)
    ensures
        r matches Some(s) ==> auto_path_for(save_dir@, pattern@, s@),
        r is None ==> fails_at_some_instant(pattern@),
{
    let (secs, nanos, offset) = local_now();
    let name = match format_instant(pattern, secs, nanos, offset) {
        Some(n) => n,
        None => {
            assert(strftime_at(pattern@, secs, nanos, offset) is None);
            return None;
        },
    };
    let home = home_dir();
    let dir = match &home {
        Some(h) => expand_tilde_with(save_dir, Some(h.as_str())),
        None => expand_tilde_with(save_dir, None),
    };
    let r = join_path(dir.as_str(), name.as_str());
    let ghost hv: Option<Seq<char>> = match home {
        Some(h) => Some(h@),
        None => None,
    };
    assert(strftime_at(pattern@, secs, nanos, offset) == Some(name@));
    assert(path_join(tilde_expanded(save_dir@, hv), name@) == r@);
    assert(auto_path_for(save_dir@, pattern@, r@));
    Some(r)
}

/// Where a capture is saved: nowhere, where the caller said, or at a fresh
/// auto-save path.
#[derive(Debug, Clone, Copy, PartialEq, Eq, Structural)]
pub enum SaveTarget {
    Skip,
    Given,
    Auto,
}

/// `no_save` wins; otherwise a non-empty path is used as given; otherwise a
/// path is generated from the configuration.
pub open spec fn save_target_of(path: Seq<char>, no_save: bool) -> SaveTarget {
    if no_save {
        SaveTarget::Skip
    } else if path.len() > 0 {
        SaveTarget::Given
    } else {
        SaveTarget::Auto
    }
}

/// Asking not to save always skips saving; otherwise a given path is
/// used, and only an empty one makes a path be generated.
pub proof fn lemma_save_target(path: Seq<char>)
    ensures
        save_target_of(path, true) == SaveTarget::Skip,
        path.len() > 0 ==> save_target_of(path, false) == SaveTarget::Given,
        save_target_of(path, false) == SaveTarget::Auto <==> path.len() == 0,
{
}

pub fn save_target(path: &str, no_save: bool) -> (t: SaveTarget)
    ensures
        t == save_target_of(path@, no_save),
{
    if no_save {
        SaveTarget::Skip
    } else if chars_of(path).len() > 0 {
        SaveTarget::Given
    } else {
        SaveTarget::Auto
    }
}

/// The save path for a capture request: empty to skip saving (`no_save`),
/// the given path when there is one, else a generated auto-save path.
/// `None` only when a path must be generated and chrono cannot format the
/// time now under `pattern`.
pub fn resolve_save_path(path: String, no_save: bool, save_dir: &str, pattern: &str) -> (r:
    Option<String>)
    ensures
        save_target_of(path@, no_save) == SaveTarget::Skip ==> (r matches Some(s) && s@.len()
            == 0),
        save_target_of(path@, no_save) == SaveTarget::Given ==> (r matches Some(s) && s@
            == path@),
        save_target_of(path@, no_save) == SaveTarget::Auto ==> (r matches Some(s) ==> auto_path_for(
            save_dir@,
            pattern@,
            s@,
        )),
        save_target_of(path@, no_save) == SaveTarget::Auto ==> (r is None ==> fails_at_some_instant(
            pattern@,
        )),
{
    match save_target(path.as_str(), no_save) {
        SaveTarget::Skip => Some(String::new()),
        SaveTarget::Given => Some(path),
        SaveTarget::Auto => auto_save_path(save_dir, pattern),
    }
}

/// `s` without leading and trailing Unicode whitespace (as `str::trim`
/// gives it).
fn trim_str(s: &str) -> (r: &str)
    ensures
        r@ == trimmed(s@),
{
    let v = chars_of(s);
    let (a, b) = trim_range(&v);
    s.substring_char(a, b)
}

/// The on-disk copy path for a configured `latest_path`: `None` when it is
/// blank, else the trimmed path with `~` expanded against `home`.
pub fn latest_path_with(latest: &str, home: Option<&str>) -> (r: Option<String>)
    ensures
        trimmed(latest@).len() == 0 ==> r is None,
        trimmed(latest@).len() > 0 ==> (r matches Some(s) && s@ == tilde_expanded(
            trimmed(latest@),
            match home {
                Some(h) => Some(h@),
                None => None,
            },
        )),
{
    let t = trim_str(latest);
    if chars_of(t).len() == 0 {
        None
    } else {
        Some(expand_tilde_with(t, home))
    }
}

/// The on-disk copy path for a configured `latest_path`, as
/// `latest_path_with` gives it with the home directory that `dirs` reports
/// (none when it reports none); `None` when it is blank.
pub fn resolve_latest_path(latest: &str) -> (r: Option<String>)
    ensures
        r is None <==> trimmed(latest@).len() == 0,
        r matches Some(s) ==> expands_to(trimmed(latest@), s@),
        trimmed(latest@).len() > 0 && !has_home_prefix(trimmed(latest@)) ==> (r matches Some(s)
            && s@ == trimmed(latest@)),
{
    let home = home_dir();
    let r = match &home {
        Some(h) => latest_path_with(latest, Some(h.as_str())),
        None => latest_path_with(latest, None),
    };
    let ghost hv: Option<Seq<char>> = match home {
        Some(h) => Some(h@),
        None => None,
    };
    if let Some(s) = &r {
        assert(tilde_expanded(trimmed(latest@), hv) == s@);
    }
    r
}

/// The pixelate block size in effect: the configured one, at least 2.
pub fn pixelate_block_of(configured: u32) -> (b: u32)
    ensures
        b == (if configured < 2 {
            2
        } else {
            configured
        }),
{
    if configured < 2 {
        2
    } else {
        configured
    }
}

} // verus!
