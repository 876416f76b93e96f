//! Parsing a [Line] discriminant: a file name, a rank number, or both.

use vstd::prelude::*;

use crate::board::line::Line;
use crate::parse::coordinates::{
    digits_value, is_alpha_char, is_digit_char, is_u8_number, lemma_line_digits_nonneg,
    spec_alphabetic_file_to_numeric, str_chars,
};
use crate::parse::error::NotationParseError;

verus! {

/// The grammar of a line: any run of letters, then any run of digits,
/// covering the whole string; either run may be empty.
pub open spec fn line_shape(s: Seq<char>, letters: int) -> bool {
    &&& 0 <= letters <= s.len()
    &&& (forall|i: int| 0 <= i < letters ==> is_alpha_char(#[trigger] s[i]))
    &&& (forall|i: int| letters <= i < s.len() ==> is_digit_char(#[trigger] s[i]))
}

/// The line named by a well-shaped string: its letters name a file, its
/// digits name a rank, and having neither is an error, as is any failing
/// component conversion.
pub open spec fn spec_line_of(s: Seq<char>, letters: int) -> Option<Line> {
    let file_part = s.take(letters);
    let rank_part = s.skip(letters);
    if letters == 0 && s.len() == 0 {
        None
    } else if letters == 0 {
        if is_u8_number(rank_part) && digits_value(rank_part, rank_part.len() as int) >= 1 {
            Some(Line::Rank((digits_value(rank_part, rank_part.len() as int) - 1) as u8))
        } else {
            None
        }
    } else if letters == s.len() {
        match spec_alphabetic_file_to_numeric(file_part) {
            Ok(f) => Some(Line::File(f)),
            Err(_) => None,
        }
    } else {
        if is_u8_number(rank_part) && digits_value(rank_part, rank_part.len() as int) >= 1 {
            match spec_alphabetic_file_to_numeric(file_part) {
                Ok(f) => Some(
                    Line::RankAndFile(
                        (digits_value(rank_part, rank_part.len() as int) - 1) as u8,
                        f,
                    ),
                ),
                Err(_) => None,
            }
        } else {
            None
        }
    }
}

/// Parses a line: a run of letters naming a file, a run of digits naming a
/// rank, or both in that order.
pub fn parse_line(s: &str) -> (r: Result<Line, NotationParseError>)
    ensures
        (exists|letters: int|
            line_shape(s@, letters) && (letters == s@.len() || !is_alpha_char(s@[letters]))) ==> (
        match spec_line_of(
            s@,
            choose|letters: int|
                line_shape(s@, letters) && (letters == s@.len() || !is_alpha_char(s@[letters])),
        ) {
            Some(line) => r == Ok::<Line, NotationParseError>(line),
            None => r is Err,
        }),
{
    let chars = str_chars(s);
    let n = chars.len();
    let mut letters: usize = 0;
    while letters < n && is_alpha(chars[letters])
        invariant
            letters <= n,
            n == s@.len(),
            chars@ == s@,
            forall|i: int| 0 <= i < letters as int ==> is_alpha_char(#[trigger] s@[i]),
        decreases n - letters,
    {
        letters = letters + 1;
    }
    let mut digits_ok = true;
    let mut i: usize = letters;
    while i < n
        invariant
            letters as int <= i as int <= n as int,
            n == s@.len(),
            chars@ == s@,
            digits_ok == (forall|j: int|
                letters as int <= j < i as int ==> is_digit_char(#[trigger] s@[j])),
        decreases n - i,
    {
        let c = chars[i];
        if !('0' <= c && c <= '9') {
            proof {
                assert(!is_digit_char(s@[i as int]));
            }
            digits_ok = false;
            i = n;
        } else {
            i = i + 1;
        }
    }
    if !digits_ok {
        return Err(NotationParseError::InvalidFormat(String::from_str(s)));
    }
    proof {
        assert(line_shape(s@, letters as int));
        assert(letters as int == s@.len() || !is_alpha_char(s@[letters as int]));
        lemma_line_shape_unique(s@, letters as int);
    }
    if letters == 0 && n == 0 {
        return Err(NotationParseError::InvalidFormat(String::from_str(s)));
    }
    let file_str = s.substring_char(0, letters);
    let rank_str = s.substring_char(letters, n);
    proof {
        assert(file_str@ =~= s@.take(letters as int));
        assert(rank_str@ =~= s@.skip(letters as int));
        if is_u8_number(s@.skip(letters as int)) {
            lemma_line_digits_nonneg(s@.skip(letters as int));
        }
    }
    if letters == 0 {
        match crate::parse::coordinates::rank_to_numeric(rank_str) {
            Ok(rank) => Ok(Line::Rank(rank)),
            Err(e) => Err(e),
        }
    } else if letters == n {
        match crate::parse::coordinates::alphabetic_file_to_numeric(file_str) {
            Ok(f) => Ok(Line::File(f)),
            Err(e) => Err(e),
        }
    } else {
        let rank = match crate::parse::coordinates::rank_to_numeric(rank_str) {
            Ok(rank) => rank,
            Err(e) => {
                return Err(e);
            },
        };
        let f = match crate::parse::coordinates::alphabetic_file_to_numeric(file_str) {
            Ok(f) => f,
            Err(e) => {
                return Err(e);
            },
        };
        Ok(Line::RankAndFile(rank, f))
    }
}

/// Whether the character is an ASCII letter of either case.
fn is_alpha(c: char) -> (r: bool)
    ensures
        r == is_alpha_char(c),
{
    ('a' <= c && c <= 'z') || ('A' <= c && c <= 'Z')
}

/// Only one split with a maximal letter run fits the line grammar.
proof fn lemma_line_shape_unique(s: Seq<char>, letters: int)
    requires
        line_shape(s, letters),
        letters == s.len() || !is_alpha_char(s[letters]),
    ensures
        forall|l: int|
            line_shape(s, l) && (l == s.len() || !is_alpha_char(s[l])) ==> l == letters,
{
    assert forall|l: int|
        line_shape(s, l) && (l == s.len() || !is_alpha_char(s[l])) implies l == letters by {
        if l < letters {
            assert(is_alpha_char(s[l]));
            assert(is_digit_char(s[l]));
        }
        if l > letters {
            assert(is_alpha_char(s[letters]));
            assert(is_digit_char(s[letters]));
        }
    }
}

} // verus!
