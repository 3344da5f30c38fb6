//! The application's configurable values, and the validation of the size
//! argument.
//!
//! Argument and environment handling itself (the command line, the terminal's
//! size) belongs to collaborators; they fill an [`Options`] with plain
//! values.

use vstd::prelude::*;
use vstd::string::{StrSliceExecFns, StringExecFns};

verus! {

/// Supported ANSI output formats.
#[derive(Debug, Copy, Clone, Hash, PartialEq, Eq, Structural, PartialOrd, Ord)]
pub enum AnsiOutputFormat {
    /// Truecolor ANSI 24-bit colour.
    Truecolor,
    /// Dumb ANSI 3-bit colour, for black backgrounds.
    SimpleBlack,
    /// Dumb ANSI 3-bit colour, for white backgrounds.
    SimpleWhite,
    /// ASCII art.
    ASCII,
}

/// Representation of the application's all configurable values.
pub struct Options {
    /// Image file to display: the plaintext name (user-friendly) and a
    /// normalised path (programmer-friendly).
    pub image: (String, String),
    /// Output size in terminal cells.
    pub size: (u32, u32),
    /// Whether to preserve the image's aspect ratio when resizing.
    pub preserve_aspect: bool,
    /// Whether to output ANSI escapes, and in which format.
    pub ansi_out: Option<AnsiOutputFormat>,
}

/// A decimal digit character.
pub open spec fn is_digit(c: char) -> bool {
    '0' <= c && c <= '9'
}

/// The value of a decimal digit character.
pub open spec fn digit_value(c: char) -> int {
    c as int - '0' as int
}

/// The value of a most-significant-first sequence of decimal digits.
pub open spec fn digits_value(s: Seq<char>) -> int
    decreases s.len(),
{
    if s.len() == 0 {
        0
    } else {
        digits_value(s.drop_last()) * 10 + digit_value(s.last())
    }
}

/// Every character is a decimal digit.
pub open spec fn all_digits(s: Seq<char>) -> bool {
    forall|i: int| 0 <= i < s.len() ==> is_digit(#[trigger] s[i])
}

/// The separator between the two halves of a size argument.
pub open spec fn is_size_sep(c: char) -> bool {
    c == 'x' || c == 'X'
}

/// `i` is the position of the first separator in `s`.
pub open spec fn first_sep_at(s: Seq<char>, i: int) -> bool {
    0 <= i < s.len() && is_size_sep(s[i]) && forall|j: int| 0 <= j < i ==> !is_size_sep(
        #[trigger] s[j],
    )
}

/// A non-empty run of decimal digits whose value fits a `u32`.
pub open spec fn valid_u32_digits(s: Seq<char>) -> bool {
    s.len() > 0 && all_digits(s) && digits_value(s) <= u32::MAX
}

/// What a size argument `"NxM"` parses to: the text up to the first `x` or
/// `X` and the whole text after it must both be in-range digit runs.
pub open spec fn parse_size_spec(s: Seq<char>) -> Option<(u32, u32)> {
    if exists|i: int| first_sep_at(s, i) {
        let i = choose|i: int| first_sep_at(s, i);
        let left = s.take(i);
        let right = s.skip(i + 1);
        if valid_u32_digits(left) && valid_u32_digits(right) {
            Some((digits_value(left) as u32, digits_value(right) as u32))
        } else {
            None
        }
    } else {
        None
    }
}

/// With every character a digit, the value is non-negative.
proof fn lemma_digits_nonneg(s: Seq<char>)
    requires
        all_digits(s),
    ensures
        digits_value(s) >= 0,
    decreases s.len(),
{
    if s.len() > 0 {
        assert(all_digits(s.drop_last())) by {
            assert(forall|i: int|
                0 <= i < s.len() - 1 ==> #[trigger] s.drop_last()[i] == s[i]);
        }
        lemma_digits_nonneg(s.drop_last());
    }
}

/// Appending digits never shrinks the value: a prefix already over a bound
/// keeps the whole run over it.
proof fn lemma_digits_prefix_le(s: Seq<char>, k: int)
    requires
        all_digits(s),
        0 <= k <= s.len(),
    ensures
        digits_value(s.take(k)) <= digits_value(s),
    decreases s.len() - k,
{
    if k < s.len() {
        assert(all_digits(s.take(k))) by {
            assert(forall|i: int| 0 <= i < k ==> #[trigger] s.take(k)[i] == s[i]);
        }
        lemma_digits_nonneg(s.take(k));
        assert(s.take(k + 1).drop_last() =~= s.take(k));
        assert(s.take(k + 1).last() == s[k]);
        assert(digits_value(s.take(k)) <= digits_value(s.take(k + 1)));
        lemma_digits_prefix_le(s, k + 1);
        assert(s.take(s.len() as int) =~= s);
    } else {
        assert(s.take(k) =~= s);
    }
}

/// Parse a run of the characters `from..to` of `s` as a `u32` of decimal
/// digits; `None` when the run is empty, holds a non-digit, or overflows.
fn parse_u32_digits(s: &str, from: usize, to: usize) -> (r: Option<u32>)
    requires
        from <= to <= s@.len(),
    ensures
        r matches Some(v) ==> valid_u32_digits(s@.subrange(from as int, to as int)) && v
            == digits_value(s@.subrange(from as int, to as int)),
        r is None ==> !valid_u32_digits(s@.subrange(from as int, to as int)),
{
    let ghost whole = s@.subrange(from as int, to as int);
    if from == to {
        return None;
    }
    let mut v: u64 = 0;
    let mut i: usize = from;
    while i < to
        invariant
            from <= i <= to <= s@.len(),
            whole == s@.subrange(from as int, to as int),
            all_digits(s@.subrange(from as int, i as int)),
            v == digits_value(s@.subrange(from as int, i as int)),
            v <= u32::MAX,
        decreases to - i,
    {
        let c = s.get_char(i);
        if c < '0' || c > '9' {
            assert(!is_digit(whole[i - from]));
            return None;
        }
        let d = c as u32 - 48;
        v = v * 10 + d as u64;
        proof {
            assert(s@.subrange(from as int, i + 1).drop_last() =~= s@.subrange(
                from as int,
                i as int,
            ));
            assert(s@.subrange(from as int, i + 1).last() == s@[i as int]);
        }
        i = i + 1;
        if v > 0xFFFF_FFFF {
            proof {
                if all_digits(whole) {
                    assert(whole.take(i - from) =~= s@.subrange(from as int, i as int));
                    lemma_digits_prefix_le(whole, i - from);
                }
            }
            return None;
        }
    }
    proof {
        assert(s@.subrange(from as int, i as int) =~= whole);
    }
    Some(v as u32)
}

/// The position of the first separator in `s`, or its length when there is
/// none.
fn find_first_sep(s: &str) -> (r: usize)
    ensures
        r <= s@.len(),
        forall|j: int| 0 <= j < r ==> !is_size_sep(#[trigger] s@[j]),
        r < s@.len() ==> is_size_sep(s@[r as int]),
{
    let n = s.unicode_len();
    let mut i: usize = 0;
    while i < n
        invariant
            i <= n,
            n == s@.len(),
            forall|j: int| 0 <= j < i ==> !is_size_sep(#[trigger] s@[j]),
        decreases n - i,
    {
        let c = s.get_char(i);
        if c == 'x' || c == 'X' {
            return i;
        }
        i = i + 1;
    }
    i
}

impl Options {
    /// Parse a size argument of the shape `"NxM"` (the separator may be
    /// upper-case): the two halves around the first separator as decimal
    /// `u32`s.
    pub fn parse_size(s: &str) -> (r: Option<(u32, u32)>)
        ensures
            r == parse_size_spec(s@),
    {
        let n = s.unicode_len();
        let i = find_first_sep(s);
        if i == n {
            proof {
                assert forall|k: int| !first_sep_at(s@, k) by {
                    if 0 <= k && k < s@.len() {
                        assert(!is_size_sep(s@[k]));
                    }
                }
            }
            return None;
        }
        proof {
            assert(first_sep_at(s@, i as int));
            let k = choose|k: int| first_sep_at(s@, k);
            if k < i {
                assert(is_size_sep(s@[k]));
            } else if k > i {
                assert(!is_size_sep(s@[i as int]));
            }
            assert(k == i);
            assert(s@.subrange(0, i as int) =~= s@.take(i as int));
            assert(s@.subrange(i + 1, n as int) =~= s@.skip(i + 1));
        }
        let left = match parse_u32_digits(s, 0, i) {
            Some(v) => v,
            None => {
                return None;
            },
        };
        let right = match parse_u32_digits(s, i + 1, n) {
            Some(v) => v,
            None => {
                return None;
            },
        };
        Some((left, right))
    }

    /// Validate a size argument: reject text that is not `"NxM"`, and a size
    /// with a zero side, each with its message.
    pub fn size_validator(s: &str) -> (r: Result<(u32, u32), String>)
        ensures
            (match parse_size_spec(s@) {
                None => r matches Err(m) && m@ == "\""@ + s@
                    + "\" is not a valid size (in format \"NNNxMMM\")"@,
                Some((x, y)) => if x == 0 || y == 0 {
                    r matches Err(m) && m@ == "Can't resize image to size 0"@
                } else {
                    r == Ok::<(u32, u32), String>((x, y))
                },
            }),
    {
        match Options::parse_size(s) {
            None => {
                let mut m = String::from_str("\"");
                m.append(s);
                m.append("\" is not a valid size (in format \"NNNxMMM\")");
                Err(m)
            },
            Some((0, _)) => Err(String::from_str("Can't resize image to size 0")),
            Some((_, 0)) => Err(String::from_str("Can't resize image to size 0")),
            Some(size) => Ok(size),
        }
    }
}

} // verus!
