//! Bitboards: a 64-bit integer used as a set of board squares.
//!
//! Bit `i` of the integer stands for the square with index `i`, where the
//! index of a square is `rank * 8 + file`: the least significant bit is a1,
//! the next is b1, and bit 8 wraps around to a2.

use vstd::prelude::*;

use crate::board::square::{square_of_index, Square};

verus! {

/// Whether bit `i` of `v` is set. Indices outside 0..64 count as clear.
pub open spec fn bit_set(v: u64, i: int) -> bool {
    0 <= i < 64 && (v >> (i as u64)) & 1u64 == 1u64
}

/// A bit of a union is set exactly when it is set on either side.
pub broadcast proof fn lemma_bit_or(v: u64, w: u64, i: int)
    ensures
        #[trigger] bit_set(v | w, i) == (bit_set(v, i) || bit_set(w, i)),
{
    if 0 <= i < 64 {
        let j = i as u64;
        assert(((((v | w) >> j) & 1u64) == 1u64) == ((((v >> j) & 1u64) == 1u64) || (((w >> j)
            & 1u64) == 1u64))) by (bit_vector)
            requires
                j < 64,
        ;
    }
}

/// A bit of an intersection is set exactly when it is set on both sides.
pub broadcast proof fn lemma_bit_and(v: u64, w: u64, i: int)
    ensures
        #[trigger] bit_set(v & w, i) == (bit_set(v, i) && bit_set(w, i)),
{
    if 0 <= i < 64 {
        let j = i as u64;
        assert(((((v & w) >> j) & 1u64) == 1u64) == ((((v >> j) & 1u64) == 1u64) && (((w >> j)
            & 1u64) == 1u64))) by (bit_vector)
            requires
                j < 64,
        ;
    }
}

/// A bit of a complement is set exactly when the bit is clear and in range.
pub broadcast proof fn lemma_bit_not(v: u64, i: int)
    ensures
        #[trigger] bit_set(!v, i) == (0 <= i < 64 && !bit_set(v, i)),
{
    if 0 <= i < 64 {
        let j = i as u64;
        assert(((((!v) >> j) & 1u64) == 1u64) == !(((v >> j) & 1u64) == 1u64)) by (bit_vector)
            requires
                j < 64,
        ;
    }
}

/// A one-bit mask has exactly its own bit set.
pub broadcast proof fn lemma_bit_single(k: int, i: int)
    requires
        0 <= k < 64,
    ensures
        #[trigger] bit_set(1u64 << (k as u64), i) == (i == k),
{
    if 0 <= i < 64 {
        let j = i as u64;
        let m = k as u64;
        assert((((1u64 << m) >> j) & 1u64 == 1u64) == (j == m)) by (bit_vector)
            requires
                j < 64,
                m < 64,
        ;
    }
}

/// No bit at all is set in zero.
pub proof fn lemma_zero_bits()
    ensures
        forall|i: int| !(#[trigger] bit_set(0u64, i)),
{
    assert forall|i: int| !(#[trigger] bit_set(0u64, i)) by {
        if 0 <= i < 64 {
            let j = i as u64;
            assert((0u64 >> j) & 1u64 == 0u64) by (bit_vector);
        }
    }
}

/// The squares of the set bits of `v` below index `n`, in ascending order.
pub open spec fn squares_upto(v: u64, n: int) -> Seq<Square>
    decreases n,
{
    if n <= 0 {
        Seq::empty()
    } else if bit_set(v, n - 1) {
        squares_upto(v, n - 1).push(square_of_index(n - 1))
    } else {
        squares_upto(v, n - 1)
    }
}

/// The squares of all the set bits of `v`, in ascending index order.
pub open spec fn squares_of(v: u64) -> Seq<Square> {
    squares_upto(v, 64)
}

/// Membership in `squares_upto` is exactly having a set bit below the cutoff.
pub proof fn lemma_squares_upto_contains(v: u64, n: int, s: Square)
    requires
        0 <= n <= 64,
    ensures
        squares_upto(v, n).contains(s) <==> (s.in_bounds() && s.sq_index() < n && bit_set(
            v,
            s.sq_index(),
        )),
    decreases n,
{
    if n > 0 {
        lemma_squares_upto_contains(v, n - 1, s);
        if bit_set(v, n - 1) {
            let prev = squares_upto(v, n - 1);
            let e = square_of_index(n - 1);
            let cur = prev.push(e);
            assert(e.in_bounds() && e.sq_index() == n - 1);
            if cur.contains(s) {
                let i = choose|i: int| 0 <= i < cur.len() && cur[i] == s;
                if i < prev.len() {
                    assert(prev[i] == s);
                    assert(prev.contains(s));
                } else {
                    assert(s == e);
                }
            }
            if prev.contains(s) {
                let i = choose|i: int| 0 <= i < prev.len() && prev[i] == s;
                assert(cur[i] == s);
                assert(cur.contains(s));
            }
            if s == e {
                assert(cur[prev.len() as int] == s);
                assert(cur.contains(s));
            }
        }
    }
}

/// The squares below index `n` satisfying `pred`, in ascending order.
pub open spec fn squares_where_upto(pred: spec_fn(int) -> bool, n: int) -> Seq<Square>
    decreases n,
{
    if n <= 0 {
        Seq::empty()
    } else if pred(n - 1) {
        squares_where_upto(pred, n - 1).push(square_of_index(n - 1))
    } else {
        squares_where_upto(pred, n - 1)
    }
}

/// The squares whose index satisfies `pred`, in ascending order.
pub open spec fn squares_where(pred: spec_fn(int) -> bool) -> Seq<Square> {
    squares_where_upto(pred, 64)
}

/// When the bits of `v` agree with `pred`, the squares of `v` are exactly
/// the squares satisfying `pred`.
pub proof fn lemma_squares_of_matches(v: u64, pred: spec_fn(int) -> bool, n: int)
    requires
        0 <= n <= 64,
        forall|i: int| 0 <= i < 64 ==> (#[trigger] bit_set(v, i) <==> pred(i)),
    ensures
        squares_upto(v, n) == squares_where_upto(pred, n),
    decreases n,
{
    if n > 0 {
        lemma_squares_of_matches(v, pred, n - 1);
    }
}

/// A square list never holds more entries than the indices it scanned.
pub proof fn lemma_squares_upto_len(v: u64, n: int)
    requires
        0 <= n <= 64,
    ensures
        squares_upto(v, n).len() <= n,
    decreases n,
{
    if n > 0 {
        lemma_squares_upto_len(v, n - 1);
    }
}

/// A bitboard with exactly one set bit yields exactly that one square.
pub proof fn lemma_squares_upto_single(v: u64, i0: int, n: int)
    requires
        0 <= i0 < 64,
        0 <= n <= 64,
        forall|j: int| 0 <= j < 64 ==> (#[trigger] bit_set(v, j) <==> j == i0),
    ensures
        squares_upto(v, n) == if n <= i0 {
            Seq::<Square>::empty()
        } else {
            seq![square_of_index(i0)]
        },
    decreases n,
{
    if n > 0 {
        lemma_squares_upto_single(v, i0, n - 1);
        if n - 1 == i0 {
            assert(squares_upto(v, n) =~= seq![square_of_index(i0)]);
        }
    }
}

/// The error passed back by a bitboard when invalid coordinates were used:
/// any rank or file of 8 or more, or an index of 64 or more.
#[derive(Debug, PartialEq, Eq, Structural, Clone, Copy)]
pub struct OutOfBoundsError {
    /// The largest value the offending coordinate may take.
    pub max: u8,
    /// The offending value that was given.
    pub given: u8,
    /// Which kind of coordinate was out of range.
    pub type_of_index: OutOfBoundsTypeError,
}

/// The kind of coordinate that was out of range.
#[derive(Debug, PartialEq, Eq, Structural, Clone, Copy)]
pub enum OutOfBoundsTypeError {
    /// A rank of 8 or more was passed in.
    Rank,
    /// A file of 8 or more was passed in.
    File,
    /// An index of 64 or more was passed in.
    Index,
}

impl OutOfBoundsError {
    fn check_input_coords(rank: u8, file: u8) -> (r: Result<(), Self>)
        ensures
            r == Self::spec_check_coords(rank, file),
    {
        if rank >= 8 {
            Err(
                Self {
                    max: 7,
                    given: rank,
                    type_of_index: OutOfBoundsTypeError::Rank,
                },
            )
        } else if file >= 8 {
            Err(
                Self {
                    max: 7,
                    given: file,
                    type_of_index: OutOfBoundsTypeError::File,
                },
            )
        } else {
            Ok(())
        }
    }

    /// What the coordinate check returns: the rank is reported first.
    pub open spec fn spec_check_coords(rank: u8, file: u8) -> Result<(), OutOfBoundsError> {
        if rank >= 8 {
            Err(
                OutOfBoundsError {
                    max: 7,
                    given: rank,
                    type_of_index: OutOfBoundsTypeError::Rank,
                },
            )
        } else if file >= 8 {
            Err(
                OutOfBoundsError {
                    max: 7,
                    given: file,
                    type_of_index: OutOfBoundsTypeError::File,
                },
            )
        } else {
            Ok(())
        }
    }

    fn check_input_index(index: u8) -> (r: Result<(), Self>)
        ensures
            index < 64 <==> r is Ok,
            index >= 64 ==> r == Err::<(), OutOfBoundsError>(
                OutOfBoundsError {
                    max: 63,
                    given: index,
                    type_of_index: OutOfBoundsTypeError::Index,
                },
            ),
    {
        if index >= 64 {
            Err(
                Self {
                    max: 63,
                    given: index,
                    type_of_index: OutOfBoundsTypeError::Index,
                },
            )
        } else {
            Ok(())
        }
    }
}

/// A 64-bit set of board squares. See the module documentation for the
/// mapping between bits and squares.
#[derive(Debug, PartialEq, Eq, Structural, Clone, Copy)]
pub struct Bitboard(pub u64);

impl Bitboard {
    /// Returns a new bitboard with the corresponding 64-bit representation.
    pub fn new(input: u64) -> (r: Self)
        ensures
            r.0 == input,
    {
        Bitboard(input)
    }

    /// Converts coordinates to the bitboard index, failing with an
    /// [OutOfBoundsError] when the rank or file is 8 or more. The rank is
    /// checked first.
    pub fn coords_to_index(square: Square) -> (r: Result<u8, OutOfBoundsError>)
        ensures
            square.in_bounds() ==> r == Ok::<u8, OutOfBoundsError>(square.sq_index() as u8),
            !square.in_bounds() ==> r == Err::<u8, OutOfBoundsError>(
                OutOfBoundsError::spec_check_coords(square.rank, square.file)->Err_0,
            ),
    {
        match OutOfBoundsError::check_input_coords(square.rank, square.file) {
            Ok(_) => Ok(8 * square.rank + square.file),
            Err(e) => Err(e),
        }
    }

    /// Converts a bitboard index to coordinates, failing with an
    /// [OutOfBoundsError] when the index is 64 or more.
    pub fn index_to_coords(index: u8) -> (r: Result<Square, OutOfBoundsError>)
        ensures
            index < 64 ==> r == Ok::<Square, OutOfBoundsError>(square_of_index(index as int)),
            index >= 64 ==> r == Err::<Square, OutOfBoundsError>(
                OutOfBoundsError {
                    max: 63,
                    given: index,
                    type_of_index: OutOfBoundsTypeError::Index,
                },
            ),
    {
        match OutOfBoundsError::check_input_index(index) {
            Ok(_) => {
                proof {
                    assert(index < 64 ==> (index >> 3) == index / 8 && (index & 7) == index
                        % 8) by (bit_vector);
                }
                Ok(Square::new(index >> 3, index & 7))
            },
            Err(e) => Err(e),
        }
    }

    /// Like [Self::coords_to_index] but requires the square to be in bounds;
    /// a caller that breaks the contract panics at the inner unwrap.
    pub fn coords_to_index_unchecked(square: Square) -> (r: u8)
        requires
            square.in_bounds(),
        ensures
            r == square.sq_index(),
    {
        Self::coords_to_index(square).unwrap()
    }

    /// Like [Self::index_to_coords] but requires the index to be below 64;
    /// a caller that breaks the contract panics at the inner unwrap.
    pub fn index_to_coords_unchecked(index: u8) -> (r: Square)
        requires
            index < 64,
        ensures
            r == square_of_index(index as int),
    {
        Self::index_to_coords(index).unwrap()
    }

    /// A mask with the 8 bits of one rank set and every other bit clear.
    pub fn rank_mask(rank: u8) -> (r: Self)
        requires
            rank < 8,
        ensures
            r.0 == 0xffu64 << ((8 * rank) as u64),
            forall|i: int| #[trigger] bit_set(r.0, i) <==> (0 <= i < 64 && i / 8 == rank),
    {
        let shift: u64 = 8 * (rank as u64);
        let bits: u64 = 0xffu64 << shift;
        proof {
            let rk = rank as u64;
            assert forall|i: int| bit_set(bits, i) <==> (0 <= i < 64 && i / 8 == rank) by {
                if 0 <= i < 64 {
                    let j = i as u64;
                    assert((((0xffu64 << (8 * rk)) >> j) & 1u64 == 1u64) == (j / 8 == rk))
                        by (bit_vector)
                        requires
                            rk < 8,
                            j < 64,
                    ;
                }
            }
        }
        Bitboard(bits)
    }

    /// The union of [Self::rank_mask] over every rank in `from..to`.
    pub fn rank_mask_iter(from: u8, to: u8) -> (r: Self)
        requires
            to <= 8,
        ensures
            forall|i: int| #[trigger] bit_set(r.0, i) <==> (0 <= i < 64 && from <= i / 8 < to),
    {
        let mut acc: u64 = 0;
        let mut rank: u8 = from;
        proof {
            assert(forall|i: int| !bit_set(0u64, i)) by {
                assert(forall|j: u64| j < 64 ==> (0u64 >> j) & 1u64 == 0u64) by (bit_vector);
            }
        }
        while rank < to
            invariant
                from <= rank,
                to <= 8,
                rank <= to || rank == from,
                forall|i: int| #[trigger] bit_set(acc, i) <==> (0 <= i < 64 && from <= i / 8 < rank),
            decreases to - rank,
        {
            let mask = Self::rank_mask(rank);
            proof {
                broadcast use lemma_bit_or;

            }
            acc = acc | mask.0;
            rank = rank + 1;
        }
        Bitboard(acc)
    }

    /// A mask with the 8 bits of one file set and every other bit clear.
    pub fn file_mask(file: u8) -> (r: Self)
        requires
            file < 8,
        ensures
            r.0 == 0x0101010101010101u64 << (file as u64),
            forall|i: int| #[trigger] bit_set(r.0, i) <==> (0 <= i < 64 && i % 8 == file),
    {
        let bits: u64 = 0x0101010101010101u64 << (file as u64);
        proof {
            let f = file as u64;
            assert forall|i: int| bit_set(bits, i) <==> (0 <= i < 64 && i % 8 == file) by {
                if 0 <= i < 64 {
                    let j = i as u64;
                    assert((((0x0101010101010101u64 << f) >> j) & 1u64 == 1u64) == (j % 8 == f))
                        by (bit_vector)
                        requires
                            f < 8,
                            j < 64,
                    ;
                }
            }
        }
        Bitboard(bits)
    }

    /// The union of [Self::file_mask] over every file in `from..to`.
    pub fn file_mask_iter(from: u8, to: u8) -> (r: Self)
        requires
            to <= 8,
        ensures
            forall|i: int| #[trigger] bit_set(r.0, i) <==> (0 <= i < 64 && from <= i % 8 < to),
    {
        let mut acc: u64 = 0;
        let mut file: u8 = from;
        proof {
            assert(forall|i: int| !bit_set(0u64, i)) by {
                assert(forall|j: u64| j < 64 ==> (0u64 >> j) & 1u64 == 0u64) by (bit_vector);
            }
        }
        while file < to
            invariant
                from <= file,
                to <= 8,
                file <= to || file == from,
                forall|i: int| #[trigger] bit_set(acc, i) <==> (0 <= i < 64 && from <= i % 8 < file),
            decreases to - file,
        {
            let mask = Self::file_mask(file);
            proof {
                broadcast use lemma_bit_or;

            }
            acc = acc | mask.0;
            file = file + 1;
        }
        Bitboard(acc)
    }

    /// The squares whose bits are set, from the least to the most significant
    /// bit.
    pub fn squares(&self) -> (r: Vec<Square>)
        ensures
            r@ == squares_of(self.0),
    {
        let mut v: Vec<Square> = Vec::new();
        let mut idx: u8 = 0;
        while idx < 64
            invariant
                idx <= 64,
                v@ == squares_upto(self.0, idx as int),
            decreases 64 - idx,
        {
            if self.is_bit_set(idx) {
                proof {
                    assert((idx >> 3) == idx / 8 && (idx & 7) == idx % 8) by (bit_vector)
                        requires
                            idx < 64,
                    ;
                }
                v.push(Square::new(idx >> 3, idx & 7));
            }
            idx = idx + 1;
        }
        v
    }

    /// Returns true exactly when the given bit is set.
    pub fn is_bit_set(&self, index: u8) -> (r: bool)
        requires
            index < 64,
        ensures
            r == bit_set(self.0, index as int),
    {
        (self.0 >> index) & 1u64 == 1u64
    }

    /// Returns a copy of the bitboard with one bit set or cleared.
    pub fn set_bit(&self, index: u8, to: bool) -> (r: Self)
        requires
            index < 64,
        ensures
            r.0 == if to {
                self.0 | (1u64 << index)
            } else {
                self.0 & !(1u64 << index)
            },
            forall|j: int|
                0 <= j < 64 ==> #[trigger] bit_set(r.0, j) == if j == index {
                    to
                } else {
                    bit_set(self.0, j)
                },
    {
        proof {
            broadcast use lemma_bit_or, lemma_bit_and, lemma_bit_not;

            lemma_bit_single(index as int, index as int);
            assert(forall|j: int| 0 <= j < 64 ==> #[trigger] bit_set(1u64 << (index as u64), j) == (
            j == index)) by {
                assert forall|j: int| 0 <= j < 64 implies #[trigger] bit_set(
                    1u64 << (index as u64),
                    j,
                ) == (j == index) by {
                    lemma_bit_single(index as int, j);
                }
            }
        }
        if to {
            Bitboard(self.0 | (1u64 << index))
        } else {
            Bitboard(self.0 & !(1u64 << index))
        }
    }

    /// Whether no bit at all is set.
    pub fn is_empty(&self) -> (r: bool)
        ensures
            r == (self.0 == 0),
    {
        self.0 == 0
    }
}

/// The one-bit mask of an in-bounds square.
pub fn square_mask(square: Square) -> (r: Bitboard)
    requires
        square.in_bounds(),
    ensures
        r.0 == 1u64 << (square.sq_index() as u64),
        forall|i: int| #[trigger] bit_set(r.0, i) == (i == square.sq_index()),
{
    let index = Bitboard::coords_to_index_unchecked(square);
    proof {
        assert forall|i: int| #[trigger] bit_set(1u64 << (index as u64), i) == (i == square.sq_index()) by {
            lemma_bit_single(index as int, i);
        }
    }
    Bitboard(1u64 << index)
}

impl core::ops::BitOr for Bitboard {
    type Output = Bitboard;

    /// The union of the two square sets.
    fn bitor(self, rhs: Bitboard) -> Bitboard {
        Bitboard(self.0 | rhs.0)
    }
}

impl vstd::std_specs::ops::BitOrSpecImpl for Bitboard {
    open spec fn obeys_bitor_spec() -> bool {
        true
    }

    open spec fn bitor_req(self, rhs: Bitboard) -> bool {
        true
    }

    open spec fn bitor_spec(self, rhs: Bitboard) -> Bitboard {
        Bitboard(self.0 | rhs.0)
    }
}

impl core::ops::BitAnd for Bitboard {
    type Output = Bitboard;

    /// The intersection of the two square sets.
    fn bitand(self, rhs: Bitboard) -> Bitboard {
        Bitboard(self.0 & rhs.0)
    }
}

impl vstd::std_specs::ops::BitAndSpecImpl for Bitboard {
    open spec fn obeys_bitand_spec() -> bool {
        true
    }

    open spec fn bitand_req(self, rhs: Bitboard) -> bool {
        true
    }

    open spec fn bitand_spec(self, rhs: Bitboard) -> Bitboard {
        Bitboard(self.0 & rhs.0)
    }
}

impl core::ops::BitXor for Bitboard {
    type Output = Bitboard;

    /// The symmetric difference of the two square sets.
    fn bitxor(self, rhs: Bitboard) -> Bitboard {
        Bitboard(self.0 ^ rhs.0)
    }
}

impl vstd::std_specs::ops::BitXorSpecImpl for Bitboard {
    open spec fn obeys_bitxor_spec() -> bool {
        true
    }

    open spec fn bitxor_req(self, rhs: Bitboard) -> bool {
        true
    }

    open spec fn bitxor_spec(self, rhs: Bitboard) -> Bitboard {
        Bitboard(self.0 ^ rhs.0)
    }
}

impl core::ops::Not for Bitboard {
    type Output = Bitboard;

    /// The complement of the square set.
    fn not(self) -> Bitboard {
        Bitboard(!self.0)
    }
}

impl vstd::std_specs::ops::NotSpecImpl for Bitboard {
    open spec fn obeys_not_spec() -> bool {
        true
    }

    open spec fn not_req(self) -> bool {
        true
    }

    open spec fn not_spec(self) -> Bitboard {
        Bitboard(!self.0)
    }
}

impl core::convert::From<Square> for Bitboard {
    /// The mask of a single square. An out-of-bounds square gives the empty
    /// bitboard.
    fn from(value: Square) -> Bitboard {
        if value.rank < 8 && value.file < 8 {
            square_mask(value)
        } else {
            Bitboard(0)
        }
    }
}

impl vstd::std_specs::convert::FromSpecImpl<Square> for Bitboard {
    open spec fn obeys_from_spec() -> bool {
        true
    }

    open spec fn from_spec(v: Square) -> Bitboard {
        if v.in_bounds() {
            Bitboard(1u64 << (v.sq_index() as u64))
        } else {
            Bitboard(0)
        }
    }
}

/// Walks a bitboard from the least to the most significant bit and yields the
/// square of each set bit.
#[derive(Debug, Clone, Copy)]
pub struct BitboardSquareIterator {
    /// The bits being walked.
    pub bits: u64,
    /// The next index to look at.
    pub cur_index: u8,
}

impl BitboardSquareIterator {
    /// Starts a walk over the given bitboard at the least significant bit.
    pub fn new(bitboard: &Bitboard) -> (r: Self)
        ensures
            r.bits == bitboard.0,
            r.cur_index == 0,
    {
        BitboardSquareIterator { bits: bitboard.0, cur_index: 0 }
    }

    /// The square of the lowest set bit at or above the current index, or
    /// `None` when no set bit is left.
    pub fn next(&mut self) -> (r: Option<Square>)
        ensures
            final(self).bits == old(self).bits,
            (match r {
                Some(s) => {
                    &&& s.in_bounds()
                    &&& old(self).cur_index <= s.sq_index()
                    &&& bit_set(old(self).bits, s.sq_index())
                    &&& forall|j: int|
                        old(self).cur_index <= j < s.sq_index() ==> !bit_set(old(self).bits, j)
                    &&& final(self).cur_index == s.sq_index() + 1
                },
                None => {
                    &&& forall|j: int|
                        old(self).cur_index <= j < 64 ==> !bit_set(old(self).bits, j)
                },
            }),
    {
        while self.cur_index < 64
            invariant
                self.bits == old(self).bits,
                old(self).cur_index <= self.cur_index,
                forall|j: int|
                    old(self).cur_index <= j < self.cur_index ==> !bit_set(old(self).bits, j),
            decreases 64 - self.cur_index,
        {
            let idx = self.cur_index;
            let found = (self.bits >> idx) & 1u64 == 1u64;
            self.cur_index = idx + 1;
            if found {
                proof {
                    assert((idx >> 3) == idx / 8 && (idx & 7) == idx % 8) by (bit_vector)
                        requires
                            idx < 64,
                    ;
                }
                return Some(Square::new(idx >> 3, idx & 7));
            }
        }
        None
    }
}

} // verus!
