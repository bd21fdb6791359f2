//! Parsers for the text the windowing tools print: the focused window id,
//! the display geometry (`"<width> <height>"`), and the window geometry
//! reported as indented `Width:`/`Height:` lines.  Each parser consumes
//! the tool's raw output and either yields structured geometry or reports
//! exactly why the text could not be read.

use vstd::prelude::*;
use vstd::string::StrSliceExecFns;

use crate::errors::QueryError;
use crate::geometry::Size;
use crate::geometry::WindowId;
use crate::text::digits_value;
use crate::text::find_char;
use crate::text::find_char_from;
use crate::text::has_pattern_at;
use crate::text::is_i32_numeral;
use crate::text::lemma_find_char_bounds;
use crate::text::matches_at;
use crate::text::numeral_value;
use crate::text::parse_i32;
use crate::text::skip_blanks;
use crate::text::skip_blanks_from;
use crate::text::skip_digits;
use crate::text::skip_digits_from;
use crate::text::spec_trim;
use crate::text::trim;
use crate::tokens::parse_pixel_run;

verus! {

/// Parse the focused-window query's output: the window id as a base-10
/// integer, surrounded by whitespace.  Anything else is a parse failure
/// naming the raw output.
pub fn get_focused_window_id(output: &str) -> (r: Result<WindowId, QueryError>)
    ensures
        match r {
            Ok(id) => is_i32_numeral(spec_trim(output@)) && id == numeral_value(
                spec_trim(output@),
            ),
            Err(e) => !is_i32_numeral(spec_trim(output@)) && (e matches
                QueryError::ParseFailed { output: raw } && raw@ == output@),
        },
{
    match parse_i32(trim(output)) {
        Some(id) => Ok(id),
        None => Err(QueryError::ParseFailed { output: output.to_owned() }),
    }
}

/// What precedes the first space of the trimmed display-geometry output.
pub open spec fn spec_display_first(t: Seq<char>) -> Seq<char> {
    t.subrange(0, find_char(t, ' ', 0))
}

/// What stands between the first space and the following space (or the
/// end) of the trimmed display-geometry output.
pub open spec fn spec_display_second(t: Seq<char>) -> Seq<char> {
    let i = find_char(t, ' ', 0);
    t.subrange(i + 1, find_char(t, ' ', i + 1))
}

/// Whether the display-geometry output reads as two integers: trimmed,
/// the text up to the first space and the text from there to the next
/// space (or the end) are both `i32` numerals.  Anything after a second
/// space is ignored.
pub open spec fn spec_display_output_valid(out: Seq<char>) -> bool {
    let t = spec_trim(out);
    find_char(t, ' ', 0) < t.len() && is_i32_numeral(spec_display_first(t)) && is_i32_numeral(
        spec_display_second(t),
    )
}

/// Parse the display-geometry query's output, `"<width> <height>"`.
pub fn get_display_geometry(output: &str) -> (r: Result<Size, QueryError>)
    ensures
        match r {
            Ok(size) => spec_display_output_valid(output@) && size.width == numeral_value(
                spec_display_first(spec_trim(output@)),
            ) && size.height == numeral_value(spec_display_second(spec_trim(output@))),
            Err(e) => !spec_display_output_valid(output@) && (e matches
                QueryError::ParseFailed { output: raw } && raw@ == output@),
        },
{
    let t = trim(output);
    let n = t.unicode_len();
    let i = find_char_from(t, ' ', 0);
    if i == n {
        return Err(QueryError::ParseFailed { output: output.to_owned() });
    }
    let j = find_char_from(t, ' ', i + 1);
    let first = t.substring_char(0, i);
    let second = t.substring_char(i + 1, j);
    match (parse_i32(first), parse_i32(second)) {
        (Some(width), Some(height)) => Ok(Size { width, height }),
        _ => Err(QueryError::ParseFailed { output: output.to_owned() }),
    }
}

/// Whether one line reads as `<blanks><header><blanks><digits>`: optional
/// indentation, the header, at least one blank, then digits to the end of
/// the line.
pub open spec fn line_matches_header(line: Seq<char>, header: Seq<char>) -> bool {
    let a = skip_blanks(line, 0);
    let b = a + header.len();
    has_pattern_at(line, a, header) && skip_blanks(line, b) > b && skip_blanks(line, b)
        < line.len() && skip_digits(line, skip_blanks(line, b)) == line.len()
}

/// The value of a matching header line's digit run.
pub open spec fn header_line_value(line: Seq<char>, header: Seq<char>) -> int {
    let c = skip_blanks(line, skip_blanks(line, 0) + header.len());
    digits_value(line.subrange(c, line.len() as int))
}

/// The value on the first line (splitting on newlines, starting at
/// `start`) that matches the header, or `None` when no line does.
pub open spec fn find_header_value_from(s: Seq<char>, header: Seq<char>, start: int) -> Option<int>
    decreases s.len() - start when 0 <= start <= s.len()
    via find_header_value_from_decreases
{
    let nl = find_char(s, '\n', start);
    let line = s.subrange(start, nl);
    if line_matches_header(line, header) {
        Some(header_line_value(line, header))
    } else if nl >= s.len() {
        None
    } else {
        find_header_value_from(s, header, nl + 1)
    }
}

#[via_fn]
proof fn find_header_value_from_decreases(s: Seq<char>, header: Seq<char>, start: int) {
    lemma_find_char_bounds(s, '\n', start);
}

/// How one line relates to a header: no match, a match whose value fits
/// an `i32`, or a match whose value does not.
enum HeaderMatch {
    NoMatch,
    Overflow,
    Value(i32),
}

/// Match one line against `<blanks><header><blanks><digits>`.
fn match_header_line(line: &str, header: &str) -> (r: HeaderMatch)
    ensures
        match r {
            HeaderMatch::NoMatch => !line_matches_header(line@, header@),
            HeaderMatch::Overflow => line_matches_header(line@, header@) && header_line_value(
                line@,
                header@,
            ) > i32::MAX,
            HeaderMatch::Value(v) => line_matches_header(line@, header@) && v == header_line_value(
                line@,
                header@,
            ),
        },
{
    let n = line.unicode_len();
    let a = skip_blanks_from(line, 0);
    if !matches_at(line, a, header) {
        return HeaderMatch::NoMatch;
    }
    let b = a + header.unicode_len();
    let c = skip_blanks_from(line, b);
    if c == b || c == n {
        return HeaderMatch::NoMatch;
    }
    let e = skip_digits_from(line, c);
    if e < n {
        return HeaderMatch::NoMatch;
    }
    match parse_pixel_run(line.substring_char(c, n)) {
        Some(v) => HeaderMatch::Value(v),
        None => HeaderMatch::Overflow,
    }
}

/// Scan the output line by line for the first header match.
fn scan_header_value(out: &str, header: &str) -> (r: HeaderMatch)
    ensures
        match find_header_value_from(out@, header@, 0) {
            Some(v) => if v <= i32::MAX {
                r matches HeaderMatch::Value(x) && x == v
            } else {
                r matches HeaderMatch::Overflow
            },
            None => r matches HeaderMatch::NoMatch,
        },
{
    let n = out.unicode_len();
    let mut start: usize = 0;
    while start <= n
        invariant
            0 <= start <= n,
            n == out@.len(),
            find_header_value_from(out@, header@, 0) == find_header_value_from(
                out@,
                header@,
                start as int,
            ),
        decreases n + 1 - start,
    {
        let nl = find_char_from(out, '\n', start);
        let line = out.substring_char(start, nl);
        match match_header_line(line, header) {
            HeaderMatch::NoMatch => {},
            m => {
                return m;
            },
        }
        if nl == n {
            return HeaderMatch::NoMatch;
        }
        start = nl + 1;
    }
    proof {
        assert(false);
    }
    HeaderMatch::NoMatch
}

/// Whether the window-geometry output carries both a `Width:` and a
/// `Height:` line whose values fit an `i32`.
pub open spec fn spec_window_geometry_valid(out: Seq<char>) -> bool {
    &&& find_header_value_from(out, "Width:"@, 0) matches Some(w) && w <= i32::MAX
    &&& find_header_value_from(out, "Height:"@, 0) matches Some(h) && h <= i32::MAX
}

/// Parse the window-geometry query's output: the first line of the form
/// `Width: <pixels>` and the first of the form `Height: <pixels>`, each
/// indented or not, give the window's content size.
pub fn get_window_geometry(output: &str) -> (r: Result<Size, QueryError>)
    ensures
        match r {
            Ok(size) => spec_window_geometry_valid(output@) && find_header_value_from(
                output@,
                "Width:"@,
                0,
            ) == Some(size.width as int) && find_header_value_from(output@, "Height:"@, 0) == Some(
                size.height as int,
            ),
            Err(e) => !spec_window_geometry_valid(output@) && (e matches
                QueryError::ParseFailed { output: raw } && raw@ == output@),
        },
{
    let width = scan_header_value(output, "Width:");
    let height = scan_header_value(output, "Height:");
    match (width, height) {
        (HeaderMatch::Value(w), HeaderMatch::Value(h)) => Ok(Size { width: w, height: h }),
        _ => Err(QueryError::ParseFailed { output: output.to_owned() }),
    }
}

} // verus!
