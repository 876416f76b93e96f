//! Converting between coordinates in algebraic notation (a3, c6, h1) and
//! their numeric representations.

use vstd::prelude::*;

use crate::board::square::Square;
use crate::parse::error::NotationParseError;
use crate::UInt;

verus! {

/// An ASCII whitespace character; these are skipped inside file names.
pub open spec fn is_ws_char(c: char) -> bool {
    c == ' ' || c == '\t' || c == '\n' || c == '\r'
}

/// An ASCII letter of either case.
pub open spec fn is_alpha_char(c: char) -> bool {
    ('a' <= c && c <= 'z') || ('A' <= c && c <= 'Z')
}

/// The one-based alphabet index of an ASCII letter ('a' and 'A' are 1), or
/// zero for any other character.
pub open spec fn letter_index(c: char) -> int {
    if 'a' <= c && c <= 'z' {
        (c as int) - ('a' as int) + 1
    } else if 'A' <= c && c <= 'Z' {
        (c as int) - ('A' as int) + 1
    } else {
        0
    }
}

/// An ASCII digit.
pub open spec fn is_digit_char(c: char) -> bool {
    '0' <= c && c <= '9'
}

/// The value of an ASCII digit.
pub open spec fn digit_val(c: char) -> int {
    (c as int) - ('0' as int)
}

/// The number named by the first `i` characters of a digit string.
pub open spec fn digits_value(s: Seq<char>, i: int) -> int
    decreases i,
{
    if i <= 0 {
        0
    } else {
        digits_value(s, i - 1) * 10 + digit_val(s[i - 1])
    }
}

/// The string is a number that fits the coordinate type: nonempty, all
/// digits, value at most 255.
pub open spec fn is_u8_number(s: Seq<char>) -> bool {
    &&& s.len() > 0
    &&& (forall|i: int| 0 <= i < s.len() ==> is_digit_char(#[trigger] s[i]))
    &&& digits_value(s, s.len() as int) <= 255
}

/// What converting a file name gives, reading characters from the right:
/// whitespace is skipped, letters contribute their alphabet index times a
/// growing power of 26, any other character is an error, and sums past the
/// coordinate type's ceiling overflow. The result is made zero-based, and
/// a string with no letters at all is an error.
pub open spec fn spec_file_acc(s: Seq<char>, i: int, number: int, power: Option<int>) -> Result<
    u8,
    NotationParseError,
>
    decreases i,
{
    if i <= 0 {
        if number == 0 {
            Err(NotationParseError::EmptyString())
        } else {
            Ok((number - 1) as u8)
        }
    } else {
        let c = s[i - 1];
        if is_ws_char(c) {
            spec_file_acc(s, i - 1, number, power)
        } else if is_alpha_char(c) {
            match power {
                None => Err(NotationParseError::Overflow),
                Some(p) => {
                    let add = letter_index(c) * p;
                    if add > 255 || number + add > 255 {
                        Err(NotationParseError::Overflow)
                    } else {
                        spec_file_acc(
                            s,
                            i - 1,
                            number + add,
                            if p * 26 > 255 {
                                None
                            } else {
                                Some(p * 26)
                            },
                        )
                    }
                },
            }
        } else {
            Err(NotationParseError::InvalidCharacterInFileName(c))
        }
    }
}

/// The conversion of a whole file name.
pub open spec fn spec_alphabetic_file_to_numeric(s: Seq<char>) -> Result<u8, NotationParseError> {
    spec_file_acc(s, s.len() as int, 0, Some(1))
}

/// The characters of a string, in order.
pub fn str_chars(s: &str) -> (r: Vec<char>)
    ensures
        r@ == s@,
{
    let n = s.unicode_len();
    let mut v: Vec<char> = Vec::new();
    let mut i: usize = 0;
    while i < n
        invariant
            i <= n,
            n == s@.len(),
            v@ == s@.take(i as int),
        decreases n - i,
    {
        v.push(s.get_char(i));
        proof {
            assert(v@ =~= s@.take(i + 1));
        }
        i = i + 1;
    }
    proof {
        assert(v@ =~= s@);
    }
    v
}

/// Converts an alphabetic string into its numeric file index, zero-based:
/// "a" is file 0 and "h" is file 7, and longer names continue in
/// spreadsheet fashion ("aa" follows "z"). Uppercase works like lowercase,
/// whitespace is skipped, any other character is an error, and files past
/// the coordinate type's ceiling report an overflow.
pub fn alphabetic_file_to_numeric(alphabetic_file: &str) -> (r: Result<UInt, NotationParseError>)
    ensures
        r == spec_alphabetic_file_to_numeric(alphabetic_file@),
{
    let chars = str_chars(alphabetic_file);
    let ghost s = alphabetic_file@;
    let mut i: usize = chars.len();
    let mut number: u8 = 0;
    let mut power: Option<u8> = Some(1);
    while i > 0
        invariant
            s == alphabetic_file@,
            i <= s.len(),
            chars@ == s,
            spec_file_acc(s, s.len() as int, 0, Some(1int)) == spec_file_acc(
                s,
                i as int,
                number as int,
                (match power {
                    Some(p) => Some(p as int),
                    None => None::<int>,
                }),
            ),
        decreases i,
    {
        let c = chars[i - 1];
        if c == ' ' || c == '\t' || c == '\n' || c == '\r' {
            i = i - 1;
        } else if 'a' <= c && c <= 'z' || 'A' <= c && c <= 'Z' {
            let val32: u32 = if 'a' <= c && c <= 'z' {
                (c as u32) - 96
            } else {
                (c as u32) - 64
            };
            proof {
                assert(val32 as int == letter_index(c));
                assert(1 <= val32 <= 26);
            }
            match power {
                None => {
                    proof {
                        assert(!is_ws_char(c) && is_alpha_char(c));
                        assert(spec_file_acc(s, i as int, number as int, None::<int>)
                            == Err::<u8, NotationParseError>(NotationParseError::Overflow));
                    }
                    return Err(NotationParseError::Overflow);
                },
                Some(p) => {
                    proof {
                        assert(val32 as int * (p as int) <= 6630) by (nonlinear_arith)
                            requires
                                val32 <= 26,
                                p <= 255,
                        ;
                    }
                    let add32: u32 = val32 * (p as u32);
                    proof {
                        assert(add32 as int == letter_index(c) * (p as int));
                    }
                    proof {
                        assert(!is_ws_char(c) && is_alpha_char(c));
                    }
                    if add32 > 255 {
                        proof {
                            assert(spec_file_acc(s, i as int, number as int, Some(p as int))
                                == Err::<u8, NotationParseError>(NotationParseError::Overflow));
                        }
                        return Err(NotationParseError::Overflow);
                    }
                    let sum32: u32 = (number as u32) + add32;
                    if sum32 > 255 {
                        proof {
                            assert(spec_file_acc(s, i as int, number as int, Some(p as int))
                                == Err::<u8, NotationParseError>(NotationParseError::Overflow));
                        }
                        return Err(NotationParseError::Overflow);
                    }
                    number = sum32 as u8;
                    let p32: u32 = (p as u32) * 26;
                    power = if p32 > 255 {
                        None
                    } else {
                        Some(p32 as u8)
                    };
                    i = i - 1;
                },
            }
        } else {
            proof {
                assert(!is_ws_char(c) && !is_alpha_char(c));
                assert(spec_file_acc(
                    s,
                    i as int,
                    number as int,
                    (match power {
                        Some(p) => Some(p as int),
                        None => None::<int>,
                    }),
                ) == Err::<u8, NotationParseError>(
                    NotationParseError::InvalidCharacterInFileName(c),
                ));
            }
            return Err(NotationParseError::InvalidCharacterInFileName(c));
        }
    }
    if number == 0 {
        Err(NotationParseError::EmptyString())
    } else {
        Ok(number - 1)
    }
}

/// Converts a rank string into a rank number. Ranks are one-based in
/// notation and zero-based here, so "1" is rank 0 and "0" is an error; a
/// string that is not a number of the coordinate type is a parse error.
pub fn rank_to_numeric(rank_str: &str) -> (r: Result<UInt, NotationParseError>)
    ensures
        is_u8_number(rank_str@) && digits_value(rank_str@, rank_str@.len() as int) == 0 ==> r
            == Err::<UInt, NotationParseError>(NotationParseError::ZeroRankIndex),
        is_u8_number(rank_str@) && digits_value(rank_str@, rank_str@.len() as int) >= 1 ==> r
            == Ok::<UInt, NotationParseError>(
            (digits_value(rank_str@, rank_str@.len() as int) - 1) as u8,
        ),
        !is_u8_number(rank_str@) ==> r is Err && r->Err_0 is ParseIntError,
{
    let chars = str_chars(rank_str);
    let ghost s = rank_str@;
    if chars.len() == 0 {
        return Err(NotationParseError::ParseIntError(String::from_str(rank_str)));
    }
    let mut i: usize = 0;
    let mut value: u32 = 0;
    while i < chars.len()
        invariant
            s == rank_str@,
            i <= s.len(),
            chars@ == s,
            s.len() > 0,
            forall|j: int| 0 <= j < i as int ==> is_digit_char(#[trigger] s[j]),
            value as int == digits_value(s, i as int),
            value <= 255,
        decreases s.len() - i,
    {
        let c = chars[i];
        if !('0' <= c && c <= '9') {
            proof {
                assert(!is_digit_char(s[i as int]));
                assert(!is_u8_number(s));
            }
            return Err(NotationParseError::ParseIntError(String::from_str(rank_str)));
        }
        let d: u32 = (c as u32) - 48;
        proof {
            assert(d as int == digit_val(c));
        }
        value = value * 10 + d;
        proof {
            assert(is_digit_char(s[i as int]));
            assert(forall|j: int| 0 <= j < i as int + 1 ==> is_digit_char(#[trigger] s[j]));
            assert(value as int == digits_value(s, i as int + 1));
        }
        if value > 255 {
            proof {
                if forall|j: int| 0 <= j < s.len() ==> is_digit_char(#[trigger] s[j]) {
                    lemma_digits_le(s, i as int + 1, s.len() as int);
                }
                assert(!is_u8_number(s));
            }
            return Err(NotationParseError::ParseIntError(String::from_str(rank_str)));
        }
        i = i + 1;
    }
    if value == 0 {
        Err(NotationParseError::ZeroRankIndex)
    } else {
        Ok((value - 1) as u8)
    }
}

/// A longer digit prefix never names a smaller number.
pub proof fn lemma_digits_le(s: Seq<char>, i: int, n: int)
    requires
        0 <= i <= n <= s.len(),
        forall|j: int| 0 <= j < n ==> is_digit_char(#[trigger] s[j]),
    ensures
        digits_value(s, n) >= digits_value(s, i),
    decreases n - i,
{
    if i < n {
        lemma_digits_le(s, i + 1, n);
        assert(digits_value(s, i + 1) == digits_value(s, i) * 10 + digit_val(s[i]));
        assert(digit_val(s[i]) >= 0);
        assert(digits_value(s, i) >= 0) by {
            lemma_digits_nonneg(s, i);
        }
    }
}

/// The value of a digit prefix is never negative.
proof fn lemma_digits_nonneg(s: Seq<char>, i: int)
    requires
        0 <= i <= s.len(),
        forall|j: int| 0 <= j < i ==> is_digit_char(#[trigger] s[j]),
    ensures
        digits_value(s, i) >= 0,
    decreases i,
{
    if i > 0 {
        lemma_digits_nonneg(s, i - 1);
    }
}

/// A whole digit string of the coordinate type names a nonnegative number.
pub proof fn lemma_line_digits_nonneg(s: Seq<char>)
    requires
        is_u8_number(s),
    ensures
        digits_value(s, s.len() as int) >= 0,
{
    lemma_digits_nonneg(s, s.len() as int);
}

/// The grammar of a square in algebraic notation: one or more letters for
/// the file, then one or more digits for the rank, nothing else.
pub open spec fn square_shape(s: Seq<char>, letters: int) -> bool {
    &&& 0 < letters < s.len()
    &&& (forall|i: int| 0 <= i < letters ==> is_alpha_char(#[trigger] s[i]))
    &&& (forall|i: int| letters <= i < s.len() ==> is_digit_char(#[trigger] s[i]))
}

/// Converts an algebraically notated string such as "a5" or "c8" into a
/// [Square]: letters name the file and digits name the rank, both
/// one-based in notation and zero-based in the square.
pub fn algebraic_to_square(algebraic_notated_string: &str) -> (r: Result<
    Square,
    NotationParseError,
>)
    ensures
        (exists|letters: int| square_shape(algebraic_notated_string@, letters)) ==> (
        match spec_square_of(algebraic_notated_string@) {
            Ok(sq) => r == Ok::<Square, NotationParseError>(sq),
            Err(_) => r is Err,
        }),
        !(exists|letters: int| square_shape(algebraic_notated_string@, letters)) ==> (r matches
        Err(NotationParseError::InvalidFormat(t)) && t@ == algebraic_notated_string@),
{
    parse_square_str(algebraic_notated_string)
}

/// The square named by a well-shaped algebraic string: the letters give
/// the file and the digits give the rank, or the error either conversion
/// reports.
pub open spec fn spec_square_of(s: Seq<char>) -> Result<Square, NotationParseError> {
    let letters = choose|letters: int| square_shape(s, letters);
    let file_r = spec_alphabetic_file_to_numeric(s.take(letters));
    let digits = s.skip(letters);
    if file_r is Err {
        Err(file_r->Err_0)
    } else if !is_u8_number(digits) {
        Err(NotationParseError::ZeroRankIndex)
    } else if digits_value(digits, digits.len() as int) == 0 {
        Err(NotationParseError::ZeroRankIndex)
    } else {
        Ok(
            Square {
                rank: (digits_value(digits, digits.len() as int) - 1) as u8,
                file: file_r->Ok_0,
            },
        )
    }
}

/// Parses a square: a run of letters, then a run of digits, nothing else.
pub(crate) fn parse_square_str(s: &str) -> (r: Result<Square, NotationParseError>)
    ensures
        (exists|letters: int| square_shape(s@, letters)) ==> (match spec_square_of(s@) {
            Ok(sq) => r == Ok::<Square, NotationParseError>(sq),
            Err(_) => r is Err,
        }),
        !(exists|letters: int| square_shape(s@, letters)) ==> (r matches Err(
        NotationParseError::InvalidFormat(t)) && t@ == s@),
{
    let chars = str_chars(s);
    let n = chars.len();
    let mut letters: usize = 0;
    while letters < n && is_ascii_alpha(chars[letters])
        invariant
            letters <= n,
            n == s@.len(),
            chars@ == s@,
            forall|i: int| 0 <= i < letters as int ==> is_alpha_char(#[trigger] s@[i]),
        decreases n - letters,
    {
        letters = letters + 1;
    }
    proof {
        assert(letters == n || !is_alpha_char(s@[letters as int]));
    }
    if letters == 0 || letters >= n {
        proof {
            lemma_no_square_shape(s@, letters as int);
        }
        return Err(NotationParseError::InvalidFormat(String::from_str(s)));
    }
    let mut digits_ok = true;
    let mut i: usize = letters;
    while i < n
        invariant
            letters as int <= i as int <= n as int,
            n == s@.len(),
            chars@ == s@,
            digits_ok == (forall|j: int| letters as int <= j < i as int ==> is_digit_char(#[trigger] s@[j])),
        decreases n - i,
    {
        let c = chars[i];
        if !('0' <= c && c <= '9') {
            proof {
                assert(!is_digit_char(s@[i as int]));
            }
            digits_ok = false;
            i = n;
        } else {
            i = i + 1;
        }
    }
    if !digits_ok {
        proof {
            lemma_no_square_shape_digits(s@, letters as int);
        }
        return Err(NotationParseError::InvalidFormat(String::from_str(s)));
    }
    proof {
        assert(square_shape(s@, letters as int));
        lemma_square_shape_unique(s@, letters as int);
        assert((choose|l: int| square_shape(s@, l)) == letters as int);
    }
    let file_str = s.substring_char(0, letters);
    let rank_str = s.substring_char(letters, n);
    proof {
        assert(file_str@ =~= s@.take(letters as int));
        assert(rank_str@ =~= s@.skip(letters as int));
    }
    let file = match alphabetic_file_to_numeric(file_str) {
        Ok(f) => f,
        Err(e) => {
            return Err(e);
        },
    };
    let rank = match rank_to_numeric(rank_str) {
        Ok(rk) => rk,
        Err(e) => {
            proof {
                let gl = choose|l: int| square_shape(s@, l);
                if is_u8_number(s@.skip(gl)) {
                    lemma_digits_nonneg(s@.skip(gl), s@.skip(gl).len() as int);
                }
            }
            return Err(e);
        },
    };
    proof {
        let gl = choose|l: int| square_shape(s@, l);
        assert(gl == letters as int);
        let gdigits = s@.skip(gl);
        assert(rank_str@ == gdigits);
        assert(is_u8_number(gdigits));
        lemma_digits_nonneg(gdigits, gdigits.len() as int);
        assert(digits_value(gdigits, gdigits.len() as int) >= 1);
        assert(rank as int == digits_value(gdigits, gdigits.len() as int) - 1);
        assert(file_str@ == s@.take(gl));
        assert(spec_alphabetic_file_to_numeric(s@.take(gl)) == Ok::<u8, NotationParseError>(file));
        assert(spec_square_of(s@) == Ok::<Square, NotationParseError>(
            Square { rank, file },
        ));
    }
    Ok(Square::new(rank, file))
}

/// Whether the character is an ASCII letter of either case.
fn is_ascii_alpha(c: char) -> (r: bool)
    ensures
        r == is_alpha_char(c),
{
    ('a' <= c && c <= 'z') || ('A' <= c && c <= 'Z')
}

/// With no letters, or no digits after them, no split fits the square
/// grammar.
proof fn lemma_no_square_shape(s: Seq<char>, letters: int)
    requires
        0 <= letters <= s.len(),
        forall|i: int| 0 <= i < letters ==> is_alpha_char(#[trigger] s[i]),
        letters < s.len() ==> !is_alpha_char(s[letters]),
        letters == 0 || letters >= s.len(),
    ensures
        !(exists|l: int| square_shape(s, l)),
{
    assert forall|l: int| !square_shape(s, l) by {
        if square_shape(s, l) {
            assert(is_alpha_char(s[0]));
            assert(letters > 0);
            assert(letters >= s.len());
            assert(l < s.len());
            assert(is_digit_char(s[l]));
            assert(is_alpha_char(s[l]));
        }
    }
}

/// With a non-digit after the letter run, no split fits the square
/// grammar.
proof fn lemma_no_square_shape_digits(s: Seq<char>, letters: int)
    requires
        0 < letters < s.len(),
        forall|i: int| 0 <= i < letters ==> is_alpha_char(#[trigger] s[i]),
        !is_alpha_char(s[letters]),
        !(forall|j: int| letters <= j < s.len() ==> is_digit_char(#[trigger] s[j])),
    ensures
        !(exists|l: int| square_shape(s, l)),
{
    assert forall|l: int| !square_shape(s, l) by {
        if square_shape(s, l) {
            if l < letters {
                assert(is_digit_char(s[l]));
                assert(is_alpha_char(s[l]));
            } else if l > letters {
                assert(is_alpha_char(s[letters]));
            } else {
                assert(forall|j: int| letters <= j < s.len() ==> is_digit_char(#[trigger] s[j]));
            }
        }
    }
}

/// Only one split of a string fits the square grammar.
proof fn lemma_square_shape_unique(s: Seq<char>, letters: int)
    requires
        square_shape(s, letters),
        letters < s.len() ==> !is_alpha_char(s[letters]),
    ensures
        forall|l: int| square_shape(s, l) ==> l == letters,
{
    assert forall|l: int| square_shape(s, l) implies l == letters by {
        if l < letters {
            assert(is_digit_char(s[l]));
            assert(is_alpha_char(s[l]));
        }
        if l > letters {
            assert(is_alpha_char(s[letters]));
        }
    }
}

} // verus!
