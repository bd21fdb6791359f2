//! Parsers for the command-line descriptor tokens — the grid shape
//! (`"<rows>x<columns>"`), the target cell (`"<row>,<column>"`) and the
//! gap (`"<horizontal>x<vertical>"`, each part a pixel count or a
//! percentage) — and the resolution of a gap to absolute pixels.

use vstd::prelude::*;
use vstd::string::StrSliceExecFns;

use crate::errors::ConfigurationError;
use crate::geometry::CellIndex;
use crate::geometry::GridShape;
use crate::geometry::Size;
use crate::text::all_digits;
use crate::text::digits_value;
use crate::text::find_char;
use crate::text::find_char_from;
use crate::text::first_part;
use crate::text::is_digit;
use crate::text::is_digit_char;
use crate::text::is_i32_numeral;
use crate::text::lemma_digits_value_non_negative;
use crate::text::lemma_digits_value_prefix_bound;
use crate::text::lemma_pow10_non_decreasing;
use crate::text::numeral_value;
use crate::text::parse_i32;
use crate::text::pow10;
use crate::text::second_part;
use crate::text::spec_trim;
use crate::text::split_two;
use crate::text::splits_in_two;
use crate::text::trim;

verus! {

/// One part of a gap descriptor: a pixel count, or a percentage kept as
/// the exact fraction `numerator / denominator` of the base dimension
/// (`"12.5%"` is kept as `125 / 1000` of a hundredth, that is
/// `125 / 100000` of the base).
#[derive(Clone, Copy, Debug, PartialEq, Eq)]
pub enum IntOrPercent {
    Int(i32),
    Percent { numerator: u64, denominator: u64 },
}

impl IntOrPercent {
    /// What parsing guarantees: a non-negative pixel count, or a
    /// fraction whose numerator has at most nine digits and whose
    /// denominator is one hundred times a power of ten.
    pub open spec fn wf(self) -> bool {
        match self {
            IntOrPercent::Int(pixels) => pixels >= 0,
            IntOrPercent::Percent { numerator, denominator } => numerator <= 999_999_999 && 100
                <= denominator <= 100_000_000_000,
        }
    }
}

/// The digits of a decimal numeral with the optional dot removed.
pub open spec fn decimal_digits(s: Seq<char>) -> Seq<char> {
    let dot = find_char(s, '.', 0);
    if dot == s.len() {
        s
    } else {
        s.subrange(0, dot) + s.subrange(dot + 1, s.len() as int)
    }
}

/// A non-negative decimal numeral: digits with at most one dot among
/// them, and at least one digit.
pub open spec fn is_decimal(s: Seq<char>) -> bool {
    let dot = find_char(s, '.', 0);
    (dot == s.len() || find_char(s, '.', dot + 1) == s.len()) && decimal_digits(s).len() > 0
        && all_digits(decimal_digits(s))
}

/// How many digits follow the dot (zero when there is none).
pub open spec fn fraction_digit_count(s: Seq<char>) -> int {
    let dot = find_char(s, '.', 0);
    if dot == s.len() {
        0
    } else {
        s.len() - dot - 1
    }
}

/// A pixel gap part: one or more digits whose value fits in an `i32`.
pub open spec fn is_pixel_token(t: Seq<char>) -> bool {
    t.len() > 0 && all_digits(t) && digits_value(t) <= i32::MAX
}

/// A percentage gap part: a decimal numeral of at most nine digits,
/// followed by `%`.  The nine-digit bound keeps the fixed-point value in
/// machine range; a longer numeral is rejected as malformed.
pub open spec fn is_percent_token(t: Seq<char>) -> bool {
    t.len() > 0 && t.last() == '%' && is_decimal(t.drop_last()) && decimal_digits(
        t.drop_last(),
    ).len() <= 9
}

/// The relation between a raw gap part and its parse: trimmed, the part
/// reads as the returned pixel count or as the returned exact fraction.
pub open spec fn spec_gap_part(raw: Seq<char>, g: IntOrPercent) -> bool {
    let t = spec_trim(raw);
    match g {
        IntOrPercent::Int(pixels) => is_pixel_token(t) && pixels == digits_value(t),
        IntOrPercent::Percent { numerator, denominator } => is_percent_token(t) && numerator
            == digits_value(decimal_digits(t.drop_last())) && denominator == 100 * pow10(
            fraction_digit_count(t.drop_last()),
        ),
    }
}

/// Whether a raw gap part parses at all.
pub open spec fn spec_gap_part_valid(raw: Seq<char>) -> bool {
    is_pixel_token(spec_trim(raw)) || is_percent_token(spec_trim(raw))
}

/// Parse a digit-only token as a pixel count.
pub(crate) fn parse_pixel_run(t: &str) -> (r: Option<i32>)
    ensures
        match r {
            Some(v) => is_pixel_token(t@) && v == digits_value(t@),
            None => !is_pixel_token(t@),
        },
{
    let n = t.unicode_len();
    if n == 0 {
        return None;
    }
    let mut acc: u64 = 0;
    let mut i: usize = 0;
    while i < n
        invariant
            0 <= i <= n,
            n == t@.len(),
            forall|j: int| 0 <= j < i ==> is_digit(#[trigger] t@[j]),
            acc == digits_value(t@.subrange(0, i as int)),
            acc <= 0x7fff_ffff,
        decreases n - i,
    {
        let c = t.get_char(i);
        if !is_digit_char(c) {
            return None;
        }
        proof {
            assert(t@.subrange(0, i + 1).drop_last() =~= t@.subrange(0, i as int));
            assert(t@.subrange(0, i + 1).last() == t@[i as int]);
        }
        acc = acc * 10 + ((c as u32 as u64) - 48);
        i = i + 1;
        if acc > 0x7fff_ffff {
            proof {
                if is_pixel_token(t@) {
                    lemma_digits_value_prefix_bound(t@, i as int);
                    lemma_digits_value_non_negative(t@);
                }
            }
            return None;
        }
    }
    proof {
        assert(t@.subrange(0, n as int) =~= t@);
    }
    Some(acc as i32)
}

/// Parse the body of a percentage (the token with the `%` removed) as a
/// decimal numeral, returning its fixed-point numerator and denominator.
fn parse_percent_body(body: &str) -> (r: Option<(u64, u64)>)
    ensures
        match r {
            Some(p) => is_decimal(body@) && decimal_digits(body@).len() <= 9 && p.0
                == digits_value(decimal_digits(body@)) && p.1 == 100 * pow10(
                fraction_digit_count(body@),
            ) && p.0 <= 999_999_999 && 100 <= p.1 <= 100_000_000_000,
            None => !(is_decimal(body@) && decimal_digits(body@).len() <= 9),
        },
{
    let n = body.unicode_len();
    let dot = find_char_from(body, '.', 0);
    if dot < n {
        let second = find_char_from(body, '.', dot + 1);
        if second < n {
            return None;
        }
    }
    let ghost dd = decimal_digits(body@);
    proof {
        if dot < n {
            assert(dd.len() == n - 1);
        }
    }
    let digit_count: usize = if dot < n {
        n - 1
    } else {
        n
    };
    if digit_count == 0 || digit_count > 9 {
        return None;
    }
    proof {
        lemma_pow10_non_decreasing(0, 9);
        assert(pow10(9) == 1_000_000_000) by {
            reveal_with_fuel(pow10, 11);
        }
    }
    let mut acc: u64 = 0;
    let mut i: usize = 0;
    while i < dot
        invariant
            0 <= i <= dot <= n,
            n == body@.len(),
            dd == decimal_digits(body@),
            dot == find_char(body@, '.', 0),
            dd.len() == digit_count <= 9,
            pow10(9) == 1_000_000_000,
            forall|j: int| 0 <= j < i ==> is_digit(#[trigger] dd[j]),
            acc == digits_value(dd.subrange(0, i as int)),
            acc < pow10(i as int),
        decreases dot - i,
    {
        proof {
            if dot < n {
                assert(dd[i as int] == body@.subrange(0, dot as int)[i as int]);
            }
            assert(dd[i as int] == body@[i as int]);
        }
        let c = body.get_char(i);
        if !is_digit_char(c) {
            return None;
        }
        proof {
            assert(dd.subrange(0, i + 1).drop_last() =~= dd.subrange(0, i as int));
            assert(dd.subrange(0, i + 1).last() == dd[i as int]);
            assert(pow10(i + 1) == 10 * pow10(i as int));
            lemma_pow10_non_decreasing(i + 1, 9);
        }
        acc = acc * 10 + ((c as u32 as u64) - 48);
        i = i + 1;
    }
    if dot < n {
        let mut j: usize = dot + 1;
        while j < n
            invariant
                dot + 1 <= j <= n,
                dot < n,
                n == body@.len(),
                dd == decimal_digits(body@),
                dot == find_char(body@, '.', 0),
                dd.len() == digit_count <= 9,
                pow10(9) == 1_000_000_000,
                forall|k: int| 0 <= k < j - 1 ==> is_digit(#[trigger] dd[k]),
                acc == digits_value(dd.subrange(0, j - 1)),
                acc < pow10(j - 1),
            decreases n - j,
        {
            proof {
                assert(dd[j - 1] == body@.subrange(dot + 1, n as int)[j - 1 - dot]);
                assert(dd[j - 1] == body@[j as int]);
            }
            let c = body.get_char(j);
            if !is_digit_char(c) {
                return None;
            }
            proof {
                assert(dd.subrange(0, j as int).drop_last() =~= dd.subrange(0, j - 1));
                assert(dd.subrange(0, j as int).last() == dd[j - 1]);
                assert(pow10(j as int) == 10 * pow10(j - 1));
                lemma_pow10_non_decreasing(j as int, 9);
            }
            acc = acc * 10 + ((c as u32 as u64) - 48);
            j = j + 1;
        }
    }
    proof {
        assert(dd.subrange(0, dd.len() as int) =~= dd);
        lemma_pow10_non_decreasing(digit_count as int, 9);
        assert(acc <= 999_999_999);
    }
    let fraction_digits: usize = if dot < n {
        n - dot - 1
    } else {
        0
    };
    let mut power: u64 = 1;
    let mut k: usize = 0;
    while k < fraction_digits
        invariant
            0 <= k <= fraction_digits <= 9,
            power == pow10(k as int),
            pow10(9) == 1_000_000_000,
        decreases fraction_digits - k,
    {
        proof {
            assert(pow10(k + 1) == 10 * pow10(k as int));
            lemma_pow10_non_decreasing(k + 1, 9);
        }
        power = power * 10;
        k = k + 1;
    }
    proof {
        lemma_pow10_non_decreasing(fraction_digits as int, 9);
    }
    Some((acc, 100 * power))
}

/// Parse one part of a gap descriptor: trimmed, either a non-negative
/// decimal pixel count, or a non-negative decimal numeral followed by
/// `%` denoting that percentage of the base dimension.  Anything else —
/// including a signed or overlong numeral — is `InvalidGapFormat`
/// naming the raw part.
pub fn parse_int_or_percent(s: &str) -> (r: Result<IntOrPercent, ConfigurationError>)
    ensures
        match r {
            Ok(g) => g.wf() && spec_gap_part(s@, g),
            Err(e) => !spec_gap_part_valid(s@) && (e matches
                ConfigurationError::InvalidGapFormat { token } && token@ == s@),
        },
{
    let t = trim(s);
    let n = t.unicode_len();
    if n > 0 && t.get_char(n - 1) == '%' {
        let body = t.substring_char(0, n - 1);
        proof {
            assert(t@.subrange(0, n - 1) =~= t@.drop_last());
            assert(!is_digit(t@[n - 1]));
        }
        match parse_percent_body(body) {
            Some(p) => Ok(IntOrPercent::Percent { numerator: p.0, denominator: p.1 }),
            None => Err(ConfigurationError::InvalidGapFormat { token: s.to_owned() }),
        }
    } else {
        match parse_pixel_run(t) {
            Some(v) => {
                proof {
                    lemma_digits_value_non_negative(t@);
                }
                Ok(IntOrPercent::Int(v))
            },
            None => Err(ConfigurationError::InvalidGapFormat { token: s.to_owned() }),
        }
    }
}

/// Whether a grid descriptor is well formed: two integer numerals in
/// `i32` range joined by one `x`.
pub open spec fn spec_grid_token_valid(s: Seq<char>) -> bool {
    splits_in_two(s, 'x') && is_i32_numeral(first_part(s, 'x')) && is_i32_numeral(
        second_part(s, 'x'),
    )
}

/// Parse a grid descriptor `"<rows>x<columns>"`.  The dimensions are not
/// range-checked here: a non-positive dimension is reported by the
/// placement entry points, distinctly from a malformed token.
pub fn parse_grid_spec(token: &str) -> (r: Result<GridShape, ConfigurationError>)
    ensures
        match r {
            Ok(g) => spec_grid_token_valid(token@) && g.rows == numeral_value(
                first_part(token@, 'x'),
            ) && g.columns == numeral_value(second_part(token@, 'x')),
            Err(e) => !spec_grid_token_valid(token@) && (e matches
                ConfigurationError::InvalidGridFormat { token: raw } && raw@ == token@),
        },
{
    match split_two(token, 'x') {
        Some(parts) => {
            match (parse_i32(parts.0), parse_i32(parts.1)) {
                (Some(rows), Some(columns)) => Ok(GridShape { rows, columns }),
                _ => Err(ConfigurationError::InvalidGridFormat { token: token.to_owned() }),
            }
        },
        None => Err(ConfigurationError::InvalidGridFormat { token: token.to_owned() }),
    }
}

/// Whether a place descriptor is well formed: two integer numerals in
/// `i32` range joined by one comma.
pub open spec fn spec_place_token_valid(s: Seq<char>) -> bool {
    splits_in_two(s, ',') && is_i32_numeral(first_part(s, ',')) && is_i32_numeral(
        second_part(s, ','),
    )
}

/// Parse a place descriptor `"<row>,<column>"`.  Any integers are
/// accepted here; whether the cell lies inside the grid is checked by
/// the placement entry points against the grid shape.
pub fn parse_place_spec(token: &str) -> (r: Result<CellIndex, ConfigurationError>)
    ensures
        match r {
            Ok(c) => spec_place_token_valid(token@) && c.row == numeral_value(
                first_part(token@, ','),
            ) && c.column == numeral_value(second_part(token@, ',')),
            Err(e) => !spec_place_token_valid(token@) && (e matches
                ConfigurationError::InvalidPlaceFormat { token: raw } && raw@ == token@),
        },
{
    match split_two(token, ',') {
        Some(parts) => {
            match (parse_i32(parts.0), parse_i32(parts.1)) {
                (Some(row), Some(column)) => Ok(CellIndex { row, column }),
                _ => Err(ConfigurationError::InvalidPlaceFormat { token: token.to_owned() }),
            }
        },
        None => Err(ConfigurationError::InvalidPlaceFormat { token: token.to_owned() }),
    }
}

/// Whether a gap descriptor is well formed: two gap parts joined by one
/// `x`.
pub open spec fn spec_gap_token_valid(s: Seq<char>) -> bool {
    splits_in_two(s, 'x') && spec_gap_part_valid(first_part(s, 'x')) && spec_gap_part_valid(
        second_part(s, 'x'),
    )
}

/// Parse a gap descriptor `"<horizontal>x<vertical>"` into its two
/// parts.  A token that does not split into exactly two parts on `x`, or
/// whose parts do not parse, is `InvalidGapFormat` naming the token.
pub fn parse_gap_spec(token: &str) -> (r: Result<(IntOrPercent, IntOrPercent), ConfigurationError>)
    ensures
        match r {
            Ok(g) => spec_gap_token_valid(token@) && g.0.wf() && g.1.wf() && spec_gap_part(
                first_part(token@, 'x'),
                g.0,
            ) && spec_gap_part(second_part(token@, 'x'), g.1),
            Err(e) => !spec_gap_token_valid(token@) && (e matches
                ConfigurationError::InvalidGapFormat { token: raw } && raw@ == token@),
        },
{
    match split_two(token, 'x') {
        Some(parts) => {
            match (parse_int_or_percent(parts.0), parse_int_or_percent(parts.1)) {
                (Ok(h), Ok(v)) => Ok((h, v)),
                _ => Err(ConfigurationError::InvalidGapFormat { token: token.to_owned() }),
            }
        },
        None => Err(ConfigurationError::InvalidGapFormat { token: token.to_owned() }),
    }
}

/// What a gap part is worth in pixels against a base dimension: a pixel
/// count passes through unchanged; a percentage is the fraction of the
/// base, truncated toward zero.
pub open spec fn spec_resolve(g: IntOrPercent, base: int) -> int {
    match g {
        IntOrPercent::Int(pixels) => pixels as int,
        IntOrPercent::Percent { numerator, denominator } => (numerator * base) / denominator as int,
    }
}

/// Resolve one gap part to absolute pixels.
pub fn resolve(g: &IntOrPercent, base: i32) -> (r: i32)
    requires
        g.wf(),
        (g matches IntOrPercent::Percent { .. }) ==> 0 <= base && spec_resolve(*g, base as int)
            <= i32::MAX,
    ensures
        r == spec_resolve(*g, base as int),
{
    match g {
        IntOrPercent::Int(pixels) => *pixels,
        IntOrPercent::Percent { numerator, denominator } => {
            proof {
                assert((*numerator) * (base as u64) <= 999_999_999 * 0x7fff_ffff)
                    by (nonlinear_arith)
                    requires
                        *numerator <= 999_999_999,
                        base as u64 <= 0x7fff_ffff,
                ;
            }
            let scaled: u64 = *numerator * (base as u64);
            (scaled / *denominator) as i32
        },
    }
}

/// Resolve both parts of a gap descriptor.  Deliberate quirk of the gap
/// semantics: the vertical gap resolves against the display *width*,
/// exactly like the horizontal gap — not against the display height.
pub fn resolve_gaps(horizontal: &IntOrPercent, vertical: &IntOrPercent, display: &Size) -> (r:
    Size)
    requires
        horizontal.wf(),
        vertical.wf(),
        display.non_negative(),
        (horizontal matches IntOrPercent::Percent { .. }) ==> spec_resolve(
            *horizontal,
            display.width as int,
        ) <= i32::MAX,
        (vertical matches IntOrPercent::Percent { .. }) ==> spec_resolve(
            *vertical,
            display.width as int,
        ) <= i32::MAX,
    ensures
        r.width == spec_resolve(*horizontal, display.width as int),
        r.height == spec_resolve(*vertical, display.width as int),
{
    Size {
        width: resolve(horizontal, display.width),
        height: resolve(vertical, display.width),
    }
}

} // verus!
