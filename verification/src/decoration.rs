//! Parsers for the decoration query's output: a window is decorated
//! unless a motif-hints property line says otherwise, and the decoration
//! insets come from a frame-extents property line.  A property line is
//! recognised anywhere in a line as its marker text followed by
//! comma-separated runs of digits.

use vstd::prelude::*;
use vstd::string::StrSliceExecFns;

use crate::errors::QueryError;
use crate::geometry::DecorationInsets;
use crate::text::digits_value;
use crate::text::find_char;
use crate::text::find_char_from;
use crate::text::has_pattern_at;
use crate::text::is_digit;
use crate::text::lemma_digits_value_non_negative;
use crate::text::lemma_find_char_bounds;
use crate::text::matches_at;
use crate::text::skip_digits;
use crate::text::skip_digits_from;
use crate::tokens::parse_pixel_run;

verus! {

/// Whether `k` runs of digits, each followed by `", "` except the last,
/// stand in `line` at `start`.
pub open spec fn groups_from(line: Seq<char>, start: int, k: int) -> bool
    decreases k,
{
    if !(0 <= start <= line.len()) {
        false
    } else if k <= 0 {
        true
    } else {
        let e = skip_digits(line, start);
        e > start && (k == 1 || (e + 2 <= line.len() && line[e] == ',' && line[e + 1] == ' '
            && groups_from(line, e + 2, k - 1)))
    }
}

/// Where the digit run of group `idx` begins (group 0 begins at `start`).
pub open spec fn group_start(line: Seq<char>, start: int, idx: int) -> int
    decreases idx,
{
    if idx <= 0 {
        start
    } else {
        group_start(line, skip_digits(line, start) + 2, idx - 1)
    }
}

/// The value of the digit run of group `idx`.
pub open spec fn group_value(line: Seq<char>, start: int, idx: int) -> int {
    let gs = group_start(line, start, idx);
    digits_value(line.subrange(gs, skip_digits(line, gs)))
}

/// Whether a property line matches at position `p`: the marker text,
/// then `ngroups` comma-separated digit runs.
pub open spec fn matches_marker_at(
    line: Seq<char>,
    marker: Seq<char>,
    ngroups: int,
    p: int,
) -> bool {
    has_pattern_at(line, p, marker) && groups_from(line, p + marker.len(), ngroups)
}

/// The leftmost position at or after `p` where the property matches, or
/// `-1` when it matches nowhere in the line.
pub open spec fn marker_match_pos(line: Seq<char>, marker: Seq<char>, ngroups: int, p: int) -> int
    decreases line.len() - p when 0 <= p <= line.len()
{
    if matches_marker_at(line, marker, ngroups, p) {
        p
    } else if p >= line.len() {
        -1
    } else {
        marker_match_pos(line, marker, ngroups, p + 1)
    }
}

/// The marker of the motif window-manager-hints property: five numbers
/// follow, of which the third is the decorations field.
pub open spec fn motif_marker() -> Seq<char> {
    "_MOTIF_WM_HINTS(CARDINAL) = "@
}

/// The marker of the frame-extents property: four numbers follow — the
/// left, right, top and bottom insets.
pub open spec fn frame_marker() -> Seq<char> {
    "_NET_FRAME_EXTENTS(CARDINAL) = "@
}

/// What a matching motif line says: decorated unless the third number is
/// the single digit `0`.
pub open spec fn line_motif_decorated(line: Seq<char>) -> bool {
    let p = marker_match_pos(line, motif_marker(), 5, 0);
    let gs = group_start(line, p + motif_marker().len(), 2);
    let ge = skip_digits(line, gs);
    !(ge == gs + 1 && line[gs] == '0')
}

/// What the first motif line (from `start`, splitting on newlines) says,
/// or `None` when no line carries the property.
pub open spec fn spec_motif_scan(s: Seq<char>, start: int) -> Option<bool>
    decreases s.len() - start when 0 <= start <= s.len()
    via spec_motif_scan_decreases
{
    let nl = find_char(s, '\n', start);
    let line = s.subrange(start, nl);
    if marker_match_pos(line, motif_marker(), 5, 0) >= 0 {
        Some(line_motif_decorated(line))
    } else if nl >= s.len() {
        None
    } else {
        spec_motif_scan(s, nl + 1)
    }
}

#[via_fn]
proof fn spec_motif_scan_decreases(s: Seq<char>, start: int) {
    lemma_find_char_bounds(s, '\n', start);
}

/// Whether the decoration query's output reports a decorated window:
/// what its first motif line says, and decorated when no line carries
/// the property.
pub open spec fn spec_has_decoration(out: Seq<char>) -> bool {
    match spec_motif_scan(out, 0) {
        Some(b) => b,
        None => true,
    }
}

/// The four numbers of a matching frame-extents line: left, right, top,
/// bottom.
pub open spec fn line_frame_values(line: Seq<char>) -> (int, int, int, int) {
    let base = marker_match_pos(line, frame_marker(), 4, 0) + frame_marker().len();
    (
        group_value(line, base, 0),
        group_value(line, base, 1),
        group_value(line, base, 2),
        group_value(line, base, 3),
    )
}

/// The numbers of the first frame-extents line (from `start`), or `None`
/// when no line carries the property.
pub open spec fn spec_frame_scan(s: Seq<char>, start: int) -> Option<(int, int, int, int)>
    decreases s.len() - start when 0 <= start <= s.len()
    via spec_frame_scan_decreases
{
    let nl = find_char(s, '\n', start);
    let line = s.subrange(start, nl);
    if marker_match_pos(line, frame_marker(), 4, 0) >= 0 {
        Some(line_frame_values(line))
    } else if nl >= s.len() {
        None
    } else {
        spec_frame_scan(s, nl + 1)
    }
}

#[via_fn]
proof fn spec_frame_scan_decreases(s: Seq<char>, start: int) {
    lemma_find_char_bounds(s, '\n', start);
}

/// Whether the first frame-extents line's numbers all fit an `i32`.
pub open spec fn spec_frame_values_fit(v: (int, int, int, int)) -> bool {
    v.0 <= i32::MAX && v.1 <= i32::MAX && v.2 <= i32::MAX && v.3 <= i32::MAX
}

/// Check `k` comma-separated digit runs at `start`.
fn groups_check(line: &str, start: usize, k: usize) -> (b: bool)
    requires
        start <= line@.len(),
    ensures
        b == groups_from(line@, start as int, k as int),
{
    let n = line.unicode_len();
    let mut cur: usize = start;
    let mut rem: usize = k;
    while rem > 0
        invariant
            0 <= cur <= n,
            n == line@.len(),
            groups_from(line@, start as int, k as int) == groups_from(
                line@,
                cur as int,
                rem as int,
            ),
        decreases rem,
    {
        let e = skip_digits_from(line, cur);
        if e == cur {
            return false;
        }
        if rem == 1 {
            return true;
        }
        if e >= n - 1 {
            return false;
        }
        if line.get_char(e) != ',' || line.get_char(e + 1) != ' ' {
            return false;
        }
        cur = e + 2;
        rem = rem - 1;
    }
    true
}

/// The bounds of the digit run of group `idx`.
fn group_bounds(line: &str, start: usize, total: usize, idx: usize) -> (r: (usize, usize))
    requires
        start <= line@.len(),
        groups_from(line@, start as int, total as int),
        idx < total,
    ensures
        r.0 == group_start(line@, start as int, idx as int),
        r.1 == skip_digits(line@, r.0 as int),
        start <= r.0 < r.1 <= line@.len(),
        forall|i: int| r.0 <= i < r.1 ==> is_digit(#[trigger] line@[i]),
{
    let mut cur: usize = start;
    let mut i: usize = 0;
    while i < idx
        invariant
            0 <= i <= idx < total,
            start <= cur <= line@.len(),
            group_start(line@, start as int, idx as int) == group_start(
                line@,
                cur as int,
                (idx - i) as int,
            ),
            groups_from(line@, cur as int, (total - i) as int),
        decreases idx - i,
    {
        let n = line.unicode_len();
        proof {
            assert(total - i >= 2);
            assert(groups_from(line@, cur as int, (total - i) as int));
            assert(skip_digits(line@, cur as int) + 2 <= n);
        }
        let e = skip_digits_from(line, cur);
        cur = e + 2;
        i = i + 1;
    }
    let ge = skip_digits_from(line, cur);
    (cur, ge)
}

/// Find the leftmost match of a property (its marker, then `ngroups`
/// digit runs) in one line.
fn find_marker_in_line(line: &str, marker: &str, ngroups: usize) -> (r: Option<usize>)
    ensures
        match r {
            Some(p) => p == marker_match_pos(line@, marker@, ngroups as int, 0)
                && matches_marker_at(line@, marker@, ngroups as int, p as int),
            None => marker_match_pos(line@, marker@, ngroups as int, 0) == -1,
        },
{
    let n = line.unicode_len();
    let mut p: usize = 0;
    while p <= n
        invariant
            0 <= p <= n,
            n == line@.len(),
            marker_match_pos(line@, marker@, ngroups as int, 0) == marker_match_pos(
                line@,
                marker@,
                ngroups as int,
                p as int,
            ),
        decreases n + 1 - p,
    {
        let matched = if matches_at(line, p, marker) {
            groups_check(line, p + marker.unicode_len(), ngroups)
        } else {
            false
        };
        if matched {
            return Some(p);
        }
        if p == n {
            return None;
        }
        p = p + 1;
    }
    proof {
        assert(false);
    }
    None
}

/// Read one matching motif line: decorated unless the third number is
/// the single digit `0`.
fn read_motif_line(line: &str, p: usize) -> (r: bool)
    requires
        matches_marker_at(line@, motif_marker(), 5, p as int),
        p == marker_match_pos(line@, motif_marker(), 5, 0),
    ensures
        r == line_motif_decorated(line@),
{
    let marker = "_MOTIF_WM_HINTS(CARDINAL) = ";
    let n = line.unicode_len();
    proof {
        assert(marker@ == motif_marker());
        assert(p + marker@.len() <= n);
    }
    let base = p + marker.unicode_len();
    let bounds = group_bounds(line, base, 5, 2);
    let zero = bounds.1 == bounds.0 + 1 && line.get_char(bounds.0) == '0';
    !zero
}

/// Whether the decoration query's output reports a decorated window: the
/// first line carrying the motif window-manager-hints property decides
/// (its third number zero means undecorated); a window without the
/// property is decorated.
pub fn has_window_decoration_from_xprop(output: &str) -> (r: bool)
    ensures
        r == spec_has_decoration(output@),
{
    let n = output.unicode_len();
    let mut start: usize = 0;
    while start <= n
        invariant
            0 <= start <= n,
            n == output@.len(),
            spec_motif_scan(output@, 0) == spec_motif_scan(output@, start as int),
        decreases n + 1 - start,
    {
        let nl = find_char_from(output, '\n', start);
        let line = output.substring_char(start, nl);
        match find_marker_in_line(line, "_MOTIF_WM_HINTS(CARDINAL) = ", 5) {
            Some(p) => {
                return read_motif_line(line, p);
            },
            None => {},
        }
        if nl == n {
            return true;
        }
        start = nl + 1;
    }
    proof {
        assert(false);
    }
    true
}

/// Read one matching frame-extents line's four numbers as insets.
fn read_frame_line(line: &str, p: usize) -> (r: Option<DecorationInsets>)
    requires
        matches_marker_at(line@, frame_marker(), 4, p as int),
        p == marker_match_pos(line@, frame_marker(), 4, 0),
    ensures
        match r {
            Some(d) => line_frame_values(line@) == (
                d.left as int,
                d.right as int,
                d.top as int,
                d.bottom as int,
            ) && d.wf(),
            None => !spec_frame_values_fit(line_frame_values(line@)),
        },
{
    let marker = "_NET_FRAME_EXTENTS(CARDINAL) = ";
    let n = line.unicode_len();
    proof {
        assert(marker@ == frame_marker());
        assert(p + marker@.len() <= n);
    }
    let base = p + marker.unicode_len();
    let b0 = group_bounds(line, base, 4, 0);
    let b1 = group_bounds(line, base, 4, 1);
    let b2 = group_bounds(line, base, 4, 2);
    let b3 = group_bounds(line, base, 4, 3);
    let left = parse_pixel_run(line.substring_char(b0.0, b0.1));
    let right = parse_pixel_run(line.substring_char(b1.0, b1.1));
    let top = parse_pixel_run(line.substring_char(b2.0, b2.1));
    let bottom = parse_pixel_run(line.substring_char(b3.0, b3.1));
    match (left, right, top, bottom) {
        (Some(l), Some(r), Some(t), Some(b)) => {
            proof {
                lemma_digits_value_non_negative(line@.subrange(b0.0 as int, b0.1 as int));
                lemma_digits_value_non_negative(line@.subrange(b1.0 as int, b1.1 as int));
                lemma_digits_value_non_negative(line@.subrange(b2.0 as int, b2.1 as int));
                lemma_digits_value_non_negative(line@.subrange(b3.0 as int, b3.1 as int));
            }
            Some(DecorationInsets { left: l, right: r, top: t, bottom: b })
        },
        _ => None,
    }
}

/// Parse the decoration query's output for the frame-extents property:
/// the first line carrying it gives the left, right, top and bottom
/// insets; `None` when no line does; a parse failure when a reported
/// inset does not fit an `i32`.
pub fn parse_window_decoration_from_xprop(output: &str) -> (r: Result<
    Option<DecorationInsets>,
    QueryError,
>)
    ensures
        match r {
            Ok(insets) => match insets {
                Some(d) => spec_frame_scan(output@, 0) == Some(
                    (d.left as int, d.right as int, d.top as int, d.bottom as int),
                ) && d.wf(),
                None => spec_frame_scan(output@, 0) is None,
            },
            Err(e) => (spec_frame_scan(output@, 0) matches Some(v) && !spec_frame_values_fit(v))
                && (e matches QueryError::ParseFailed { output: raw } && raw@ == output@),
        },
{
    let n = output.unicode_len();
    let mut start: usize = 0;
    while start <= n
        invariant
            0 <= start <= n,
            n == output@.len(),
            spec_frame_scan(output@, 0) == spec_frame_scan(output@, start as int),
        decreases n + 1 - start,
    {
        let nl = find_char_from(output, '\n', start);
        let line = output.substring_char(start, nl);
        match find_marker_in_line(line, "_NET_FRAME_EXTENTS(CARDINAL) = ", 4) {
            Some(p) => {
                return match read_frame_line(line, p) {
                    Some(d) => Ok(Some(d)),
                    None => Err(QueryError::ParseFailed { output: output.to_owned() }),
                };
            },
            None => {},
        }
        if nl == n {
            return Ok(None);
        }
        start = nl + 1;
    }
    proof {
        assert(false);
    }
    Ok(None)
}

/// Parse the decoration query's output: `None` for a window whose motif
/// hints say it is undecorated, otherwise whatever the frame-extents
/// property reports.
pub fn get_window_decoration(output: &str) -> (r: Result<Option<DecorationInsets>, QueryError>)
    ensures
        match r {
            Ok(insets) => if !spec_has_decoration(output@) {
                insets is None
            } else {
                match insets {
                    Some(d) => spec_frame_scan(output@, 0) == Some(
                        (d.left as int, d.right as int, d.top as int, d.bottom as int),
                    ) && d.wf(),
                    None => spec_frame_scan(output@, 0) is None,
                }
            },
            Err(e) => spec_has_decoration(output@) && (spec_frame_scan(output@, 0) matches Some(v)
                && !spec_frame_values_fit(v)) && (e matches
                QueryError::ParseFailed { output: raw } && raw@ == output@),
        },
{
    if has_window_decoration_from_xprop(output) {
        parse_window_decoration_from_xprop(output)
    } else {
        Ok(None)
    }
}

} // verus!
