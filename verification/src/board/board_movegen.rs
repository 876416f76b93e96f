//! Per-piece move masks: for each piece type, the set of squares a piece of
//! the active color standing on a given square can move to or capture on,
//! computed against the current occupancy.

use vstd::prelude::*;

use crate::bitboard::{bit_set, Bitboard};
use crate::board::board_core::{placement_square_ok, Board, BoardModel};
use crate::board::piece_type::PieceType;
use crate::board::player_color::PlayerColor;
use crate::board::square::Square;

verus! {

/// Whether the coordinate pair lies on the board.
pub open spec fn in_board(r: int, f: int) -> bool {
    0 <= r < 8 && 0 <= f < 8
}

/// The mask index of the coordinate pair.
pub open spec fn idx_rf(r: int, f: int) -> int {
    r * 8 + f
}

/// The distance between two integers.
pub open spec fn dist(a: int, b: int) -> int {
    if a >= b {
        a - b
    } else {
        b - a
    }
}

/// A knight on `from` reaches the square with index `i`: the coordinates
/// differ by one and two in some order.
pub open spec fn knight_reach(from: Square, i: int) -> bool {
    let dr = dist(from.rank as int, i / 8);
    let df = dist(from.file as int, i % 8);
    0 <= i < 64 && ((dr == 1 && df == 2) || (dr == 2 && df == 1))
}

/// A king on `from` reaches the square with index `i`: both coordinates
/// differ by at most one, and the square is not `from` itself.
pub open spec fn king_reach(from: Square, i: int) -> bool {
    let dr = dist(from.rank as int, i / 8);
    let df = dist(from.file as int, i % 8);
    0 <= i < 64 && dr <= 1 && df <= 1 && !(dr == 0 && df == 0)
}

/// The direction a pawn of the given color advances in.
pub open spec fn pawn_dir(c: PlayerColor) -> int {
    if c is White {
        1
    } else {
        -1
    }
}

/// The rank a pawn of the given color starts on, from which it may advance
/// two squares.
pub open spec fn pawn_start_rank(c: PlayerColor) -> int {
    if c is White {
        1
    } else {
        6
    }
}

/// A pawn push: one square forward onto an empty square, or two squares
/// forward from the starting rank across two empty squares. Pushes never
/// capture.
pub open spec fn pawn_push_reach(model: BoardModel, c: PlayerColor, from: Square, i: int) -> bool {
    let d = pawn_dir(c);
    let one = idx_rf(from.rank + d, from.file as int);
    let two = idx_rf(from.rank + 2 * d, from.file as int);
    ||| (in_board(from.rank + d, from.file as int) && !model.occupied(one) && i == one)
    ||| (from.rank == pawn_start_rank(c) && in_board(from.rank + d, from.file as int)
        && !model.occupied(one) && in_board(from.rank + 2 * d, from.file as int) && !model.occupied(
        two,
    ) && i == two)
}

/// A pawn capture: one square diagonally forward onto a square held by the
/// opponent. Captures and pushes are disjoint.
pub open spec fn pawn_capture_reach(model: BoardModel, c: PlayerColor, from: Square, i: int) -> bool {
    let d = pawn_dir(c);
    ||| (in_board(from.rank + d, from.file - 1) && i == idx_rf(from.rank + d, from.file - 1)
        && model.color_at(i, c.spec_not()))
    ||| (in_board(from.rank + d, from.file + 1) && i == idx_rf(from.rank + d, from.file + 1)
        && model.color_at(i, c.spec_not()))
}

/// A pawn attack regardless of occupancy: one square diagonally forward.
/// This is the set used when asking which squares a pawn guards.
pub open spec fn pawn_attack_reach(c: PlayerColor, from: Square, i: int) -> bool {
    let d = pawn_dir(c);
    ||| (in_board(from.rank + d, from.file - 1) && i == idx_rf(from.rank + d, from.file - 1))
    ||| (in_board(from.rank + d, from.file + 1) && i == idx_rf(from.rank + d, from.file + 1))
}

/// The rank of the `k`-th step from `from` in vertical direction `dv`.
pub open spec fn step_rank(from: Square, dv: int, k: int) -> int {
    from.rank + k * dv
}

/// The file of the `k`-th step from `from` in horizontal direction `dh`.
pub open spec fn step_file(from: Square, dh: int, k: int) -> int {
    from.file + k * dh
}

/// The mask index of the `k`-th step from `from` in direction `(dv, dh)`.
pub open spec fn step_idx(from: Square, dv: int, dh: int, k: int) -> int {
    idx_rf(step_rank(from, dv, k), step_file(from, dh, k))
}

/// Every square strictly between `from` and its `k`-th step is empty.
pub open spec fn ray_clear(model: BoardModel, from: Square, dv: int, dh: int, k: int) -> bool {
    forall|j: int| 1 <= j < k ==> !model.occupied(#[trigger] step_idx(from, dv, dh, j))
}

/// The `j`-th step of the ray is on the board and empty.
pub open spec fn ray_sq_free(model: BoardModel, from: Square, dv: int, dh: int, j: int) -> bool {
    in_board(step_rank(from, dv, j), step_file(from, dh, j)) && !model.occupied(
        step_idx(from, dv, dh, j),
    )
}

/// The first `k - 1` steps of the ray are on the board and empty.
pub open spec fn ray_prefix_free(model: BoardModel, from: Square, dv: int, dh: int, k: int) -> bool {
    forall|j: int| 1 <= j < k ==> #[trigger] ray_sq_free(model, from, dv, dh, j)
}

/// The square with index `i` is the `k`-th step of an unobstructed ray from
/// `from` in direction `(dv, dh)`, and does not hold one of the mover's own
/// pieces: sliding pieces stop before their own pieces and stop on (and may
/// capture) the first enemy piece.
pub open spec fn ray_hit(
    model: BoardModel,
    c: PlayerColor,
    from: Square,
    dv: int,
    dh: int,
    i: int,
    k: int,
) -> bool {
    &&& 1 <= k
    &&& in_board(step_rank(from, dv, k), step_file(from, dh, k))
    &&& i == step_idx(from, dv, dh, k)
    &&& ray_clear(model, from, dv, dh, k)
    &&& !model.color_at(i, c)
}

/// A sliding piece of color `c` on `from` reaches the square with index `i`
/// along direction `(dv, dh)`.
pub open spec fn ray_reach(
    model: BoardModel,
    c: PlayerColor,
    from: Square,
    dv: int,
    dh: int,
    i: int,
) -> bool {
    exists|k: int| #[trigger] ray_hit(model, c, from, dv, dh, i, k)
}

/// A bishop reaches `i`: some diagonal ray does.
pub open spec fn bishop_reach(model: BoardModel, c: PlayerColor, from: Square, i: int) -> bool {
    ||| ray_reach(model, c, from, 1, 1, i)
    ||| ray_reach(model, c, from, 1, -1, i)
    ||| ray_reach(model, c, from, -1, 1, i)
    ||| ray_reach(model, c, from, -1, -1, i)
}

/// A rook reaches `i`: some orthogonal ray does.
pub open spec fn rook_reach(model: BoardModel, c: PlayerColor, from: Square, i: int) -> bool {
    ||| ray_reach(model, c, from, 1, 0, i)
    ||| ray_reach(model, c, from, -1, 0, i)
    ||| ray_reach(model, c, from, 0, 1, i)
    ||| ray_reach(model, c, from, 0, -1, i)
}

/// A queen reaches `i`: a bishop or a rook there would.
pub open spec fn queen_reach(model: BoardModel, c: PlayerColor, from: Square, i: int) -> bool {
    bishop_reach(model, c, from, i) || rook_reach(model, c, from, i)
}

/// The squares a piece of color `c` and type `t` on `from` can move to.
/// For a pawn these are its pushes; for every other piece moving and
/// capturing coincide.
pub open spec fn piece_move_reach(
    model: BoardModel,
    c: PlayerColor,
    t: PieceType,
    from: Square,
    i: int,
) -> bool {
    match t {
        PieceType::Pawn => pawn_push_reach(model, c, from, i),
        PieceType::Knight => knight_reach(from, i) && !model.color_at(i, c),
        PieceType::Bishop => bishop_reach(model, c, from, i),
        PieceType::Rook => rook_reach(model, c, from, i),
        PieceType::Queen => queen_reach(model, c, from, i),
        PieceType::King => king_reach(from, i) && !model.color_at(i, c),
    }
}

/// The squares a piece of color `c` and type `t` on `from` can capture on.
/// For a pawn these are its diagonal captures; for every other piece moving
/// and capturing coincide.
pub open spec fn piece_capture_reach(
    model: BoardModel,
    c: PlayerColor,
    t: PieceType,
    from: Square,
    i: int,
) -> bool {
    match t {
        PieceType::Pawn => pawn_capture_reach(model, c, from, i),
        _ => piece_move_reach(model, c, t, from, i),
    }
}

/// The squares a piece can either move to or capture on: for a pawn the
/// union of its pushes and captures, for every other piece its move mask.
pub open spec fn piece_possible_reach(
    model: BoardModel,
    c: PlayerColor,
    t: PieceType,
    from: Square,
    i: int,
) -> bool {
    piece_move_reach(model, c, t, from, i) || piece_capture_reach(model, c, t, from, i)
}

/// The squares a piece guards, whatever stands on them: for a pawn its
/// diagonal attack squares, for every other piece its move mask.
pub open spec fn piece_guard_reach(
    model: BoardModel,
    c: PlayerColor,
    t: PieceType,
    from: Square,
    i: int,
) -> bool {
    match t {
        PieceType::Pawn => pawn_attack_reach(c, from, i),
        _ => piece_move_reach(model, c, t, from, i),
    }
}

/// One of the eight directions a queen may move in, encoded as a small
/// integer. Use [Direction::new] to build one from its two components.
#[derive(Debug, PartialEq, Eq, Structural, Clone, Copy)]
pub struct Direction(pub u8);

impl Direction {
    /// The encoding is one of the eight valid direction codes.
    pub open spec fn wf(self) -> bool {
        self.0 < 8
    }

    /// The vertical component of the direction: -1, 0, or 1.
    pub open spec fn spec_vertical(self) -> int {
        if self.0 == 0 || self.0 == 1 || self.0 == 2 {
            -1
        } else if self.0 == 3 || self.0 == 4 {
            0
        } else {
            1
        }
    }

    /// The horizontal component of the direction: -1, 0, or 1.
    pub open spec fn spec_horizontal(self) -> int {
        if self.0 == 0 || self.0 == 3 || self.0 == 5 {
            -1
        } else if self.0 == 1 || self.0 == 6 {
            0
        } else {
            1
        }
    }

    /// The direction with the given components, or `None` when either
    /// component is outside -1..=1 or both are zero.
    pub open spec fn spec_new(vertical: int, horizontal: int) -> Option<Direction> {
        if vertical == -1 && horizontal == -1 {
            Some(Direction(0))
        } else if vertical == -1 && horizontal == 0 {
            Some(Direction(1))
        } else if vertical == -1 && horizontal == 1 {
            Some(Direction(2))
        } else if vertical == 0 && horizontal == -1 {
            Some(Direction(3))
        } else if vertical == 0 && horizontal == 1 {
            Some(Direction(4))
        } else if vertical == 1 && horizontal == -1 {
            Some(Direction(5))
        } else if vertical == 1 && horizontal == 0 {
            Some(Direction(6))
        } else if vertical == 1 && horizontal == 1 {
            Some(Direction(7))
        } else {
            None
        }
    }

    /// Creates a new direction from its vertical and horizontal components.
    pub fn new(vertical_direction: i8, horizontal_direction: i8) -> (r: Option<Self>)
        ensures
            r == Self::spec_new(vertical_direction as int, horizontal_direction as int),
            r is Some ==> r->0.wf() && r->0.spec_vertical() == vertical_direction as int
                && r->0.spec_horizontal() == horizontal_direction as int,
    {
        match (vertical_direction, horizontal_direction) {
            (-1, -1) => Some(Direction(0)),
            (-1, 0) => Some(Direction(1)),
            (-1, 1) => Some(Direction(2)),
            (0, -1) => Some(Direction(3)),
            (0, 1) => Some(Direction(4)),
            (1, -1) => Some(Direction(5)),
            (1, 0) => Some(Direction(6)),
            (1, 1) => Some(Direction(7)),
            _ => None,
        }
    }

    /// Same as [Self::new] but requires the components to name a valid
    /// direction; a caller that breaks the contract panics at the unwrap.
    pub fn new_unchecked(vertical_direction: i8, horizontal_direction: i8) -> (r: Self)
        requires
            Self::spec_new(vertical_direction as int, horizontal_direction as int) is Some,
        ensures
            Some(r) == Self::spec_new(vertical_direction as int, horizontal_direction as int),
    {
        Self::new(vertical_direction, horizontal_direction).unwrap()
    }

    /// Returns the vertical component, -1, 0, or 1.
    pub fn vertical_component(&self) -> (r: i8)
        requires
            self.wf(),
        ensures
            r as int == self.spec_vertical(),
    {
        if self.0 == 0 || self.0 == 1 || self.0 == 2 {
            -1
        } else if self.0 == 3 || self.0 == 4 {
            0
        } else {
            1
        }
    }

    /// Returns the horizontal component, -1, 0, or 1.
    pub fn horizontal_component(&self) -> (r: i8)
        requires
            self.wf(),
        ensures
            r as int == self.spec_horizontal(),
    {
        if self.0 == 0 || self.0 == 3 || self.0 == 5 {
            -1
        } else if self.0 == 1 || self.0 == 6 {
            0
        } else {
            1
        }
    }

    /// Returns the direction as a (vertical, horizontal) tuple.
    pub fn as_tuple(&self) -> (r: (i8, i8))
        requires
            self.wf(),
        ensures
            r.0 as int == self.spec_vertical(),
            r.1 as int == self.spec_horizontal(),
    {
        (self.vertical_component(), self.horizontal_component())
    }
}

/// Extending a free ray prefix by one more free square keeps it free.
proof fn lemma_ray_prefix_extend(model: BoardModel, from: Square, dv: int, dh: int, k: int)
    requires
        1 <= k,
        ray_prefix_free(model, from, dv, dh, k),
        in_board(step_rank(from, dv, k), step_file(from, dh, k)),
        !model.occupied(step_idx(from, dv, dh, k)),
    ensures
        ray_prefix_free(model, from, dv, dh, k + 1),
{
    assert forall|j: int| 1 <= j < k + 1 implies #[trigger] ray_sq_free(model, from, dv, dh, j) by {
        if j < k {
            assert(1 <= j < k);
            assert(ray_sq_free(model, from, dv, dh, j));
        } else {
            assert(j == k);
        }
    }
}

/// A free ray prefix of `k` squares keeps every shorter ray clear.
proof fn lemma_prefix_clear(model: BoardModel, from: Square, dv: int, dh: int, k: int, j: int)
    requires
        ray_prefix_free(model, from, dv, dh, k),
        1 <= j <= k,
    ensures
        ray_clear(model, from, dv, dh, j),
{
    assert forall|j2: int| 1 <= j2 < j implies !model.occupied(
        #[trigger] step_idx(from, dv, dh, j2),
    ) by {
        assert(ray_sq_free(model, from, dv, dh, j2));
    }
}

/// The square one step away from `square` in the given direction, or `None`
/// when that step leaves the board.
pub open spec fn spec_offset(square: Square, dr: int, df: int) -> Option<Square> {
    let nr = square.rank + dr;
    let nf = square.file + df;
    if in_board(nr, nf) {
        Some(Square { rank: nr as u8, file: nf as u8 })
    } else {
        None
    }
}

/// Returns the square offset from `square` by the given deltas, or `None`
/// when the result leaves the board.
pub fn increment_square_in_direction(square: &Square, dr: i8, df: i8) -> (r: Option<Square>)
    requires
        square.in_bounds(),
        -2 <= dr <= 2,
        -2 <= df <= 2,
    ensures
        r == spec_offset(*square, dr as int, df as int),
{
    let new_rank: i8 = square.rank as i8 + dr;
    let new_file: i8 = square.file as i8 + df;
    if new_rank < 0 || new_rank >= 8 {
        None
    } else if new_file < 0 || new_file >= 8 {
        None
    } else {
        Some(Square { rank: new_rank as u8, file: new_file as u8 })
    }
}

/// Adds to `bb` the square offset from `from` by `(dr, df)`, when that
/// square is on the board.
fn mask_with_offset(bb: Bitboard, from: Square, dr: i8, df: i8) -> (r: Bitboard)
    requires
        from.in_bounds(),
        -2 <= dr <= 2,
        -2 <= df <= 2,
    ensures
        forall|i: int|
            0 <= i < 64 ==> #[trigger] bit_set(r.0, i) == (bit_set(bb.0, i) || (in_board(
                from.rank + dr,
                from.file + df,
            ) && i == idx_rf(from.rank + dr, from.file + df))),
{
    match increment_square_in_direction(&from, dr, df) {
        Some(sq) => {
            let idx: u8 = 8 * sq.rank + sq.file;
            bb.set_bit(idx, true)
        },
        None => bb,
    }
}

impl Board {
    /// All valid squares that a knight of the active color on `from` can
    /// move to: the eight knight offsets, less its own side's pieces.
    pub fn knight_moves(&self, active_color: PlayerColor, from: Square) -> (r: Bitboard)
        requires
            self.wf(),
            from.in_bounds(),
        ensures
            forall|i: int|
                0 <= i < 64 ==> #[trigger] bit_set(r.0, i) == (knight_reach(from, i)
                    && !self.model().color_at(i, active_color)),
    {
        let mut bb = Bitboard::new(0);
        proof {
            crate::bitboard::lemma_zero_bits();
        }
        bb = mask_with_offset(bb, from, 2, 1);
        bb = mask_with_offset(bb, from, 2, -1);
        bb = mask_with_offset(bb, from, -2, 1);
        bb = mask_with_offset(bb, from, -2, -1);
        bb = mask_with_offset(bb, from, 1, 2);
        bb = mask_with_offset(bb, from, 1, -2);
        bb = mask_with_offset(bb, from, -1, 2);
        bb = mask_with_offset(bb, from, -1, -2);
        let own = self.color_pieces(active_color);
        let r = Bitboard(bb.0 & !own.0);
        proof {
            broadcast use crate::bitboard::lemma_bit_and, crate::bitboard::lemma_bit_not;

            assert forall|i: int| 0 <= i < 64 implies #[trigger] bit_set(r.0, i) == (knight_reach(
                from,
                i,
            ) && !self.model().color_at(i, active_color)) by {
                assert(placement_square_ok(self.placement(), i));
                if bit_set(bb.0, i) {
                    assert(knight_reach(from, i));
                }
                if knight_reach(from, i) {
                    let tr = i / 8;
                    let tf = i % 8;
                    assert(i == idx_rf(tr, tf));
                    assert(bit_set(bb.0, i));
                }
            }
        }
        r
    }

    /// All valid squares that a king of the active color on `from` can move
    /// to: the up-to-eight surrounding squares, less its own side's pieces.
    /// This does not test whether the king would be moving into check.
    pub fn king_moves(&self, active_color: PlayerColor, from: Square) -> (r: Bitboard)
        requires
            self.wf(),
            from.in_bounds(),
        ensures
            forall|i: int|
                0 <= i < 64 ==> #[trigger] bit_set(r.0, i) == (king_reach(from, i)
                    && !self.model().color_at(i, active_color)),
    {
        let mut bb = Bitboard::new(0);
        proof {
            crate::bitboard::lemma_zero_bits();
        }
        bb = mask_with_offset(bb, from, 1, -1);
        bb = mask_with_offset(bb, from, 1, 0);
        bb = mask_with_offset(bb, from, 1, 1);
        bb = mask_with_offset(bb, from, 0, -1);
        bb = mask_with_offset(bb, from, 0, 1);
        bb = mask_with_offset(bb, from, -1, -1);
        bb = mask_with_offset(bb, from, -1, 0);
        bb = mask_with_offset(bb, from, -1, 1);
        let own = self.color_pieces(active_color);
        let r = Bitboard(bb.0 & !own.0);
        proof {
            broadcast use crate::bitboard::lemma_bit_and, crate::bitboard::lemma_bit_not;

            assert forall|i: int| 0 <= i < 64 implies #[trigger] bit_set(r.0, i) == (king_reach(
                from,
                i,
            ) && !self.model().color_at(i, active_color)) by {
                assert(placement_square_ok(self.placement(), i));
                if bit_set(bb.0, i) {
                    assert(king_reach(from, i));
                }
                if king_reach(from, i) {
                    let tr = i / 8;
                    let tf = i % 8;
                    assert(i == idx_rf(tr, tf));
                    assert(bit_set(bb.0, i));
                }
            }
        }
        r
    }

    /// The pushes of a pawn of the given color on `from`: one square
    /// forward onto an empty square, or two from the starting rank.
    pub fn pawn_moves(&self, active_color: PlayerColor, from: Square) -> (r: Bitboard)
        requires
            self.wf(),
            from.in_bounds(),
        ensures
            forall|i: int|
                0 <= i < 64 ==> #[trigger] bit_set(r.0, i) == pawn_push_reach(
                    self.model(),
                    active_color,
                    from,
                    i,
                ),
    {
        let dir: i8 = match active_color {
            PlayerColor::White => 1,
            PlayerColor::Black => -1,
        };
        let start_rank: u8 = match active_color {
            PlayerColor::White => 1,
            PlayerColor::Black => 6,
        };
        let mut bb = Bitboard::new(0);
        proof {
            crate::bitboard::lemma_zero_bits();
        }
        match increment_square_in_direction(&from, dir, 0) {
            Some(one) => {
                if self.piece_at(&one).is_none() {
                    let one_idx: u8 = 8 * one.rank + one.file;
                    bb = bb.set_bit(one_idx, true);
                    if from.rank == start_rank {
                        match increment_square_in_direction(&one, dir, 0) {
                            Some(two) => {
                                if self.piece_at(&two).is_none() {
                                    let two_idx: u8 = 8 * two.rank + two.file;
                                    bb = bb.set_bit(two_idx, true);
                                }
                            },
                            None => {},
                        }
                    }
                }
            },
            None => {},
        }
        bb
    }

    /// The capture squares of a pawn of the given color on `from`: the
    /// forward diagonals holding an enemy piece.
    pub fn pawn_attacks(&self, active_color: PlayerColor, from: Square) -> (r: Bitboard)
        requires
            self.wf(),
            from.in_bounds(),
        ensures
            forall|i: int|
                0 <= i < 64 ==> #[trigger] bit_set(r.0, i) == pawn_capture_reach(
                    self.model(),
                    active_color,
                    from,
                    i,
                ),
    {
        let enemy = self.color_pieces(active_color.not());
        let raw = self.pawn_attacks_theoretical(active_color, from);
        let r = Bitboard(raw.0 & enemy.0);
        proof {
            broadcast use crate::bitboard::lemma_bit_and;

            assert forall|i: int| 0 <= i < 64 implies #[trigger] bit_set(r.0, i)
                == pawn_capture_reach(self.model(), active_color, from, i) by {
                assert(placement_square_ok(self.placement(), i));
            }
        }
        r
    }

    /// The squares a pawn of the given color on `from` guards: the forward
    /// diagonals, whatever stands on them.
    pub fn pawn_attacks_theoretical(&self, active_color: PlayerColor, from: Square) -> (r: Bitboard)
        requires
            from.in_bounds(),
        ensures
            forall|i: int|
                0 <= i < 64 ==> #[trigger] bit_set(r.0, i) == pawn_attack_reach(
                    active_color,
                    from,
                    i,
                ),
    {
        let dir: i8 = match active_color {
            PlayerColor::White => 1,
            PlayerColor::Black => -1,
        };
        let mut bb = Bitboard::new(0);
        proof {
            crate::bitboard::lemma_zero_bits();
        }
        bb = mask_with_offset(bb, from, dir, -1);
        bb = mask_with_offset(bb, from, dir, 1);
        bb
    }

    /// Calculates the available moves in one direction from a square: the
    /// ray stops at the board edge, stops before the mover's own pieces, and
    /// stops on (and includes) the first enemy piece.
    #[verifier::rlimit(100)]
    pub fn moves_in_direction(&self, active_color: PlayerColor, from: Square, direction: Direction) -> (r:
        Bitboard)
        requires
            self.wf(),
            from.in_bounds(),
            direction.wf(),
        ensures
            forall|i: int|
                0 <= i < 64 ==> #[trigger] bit_set(r.0, i) == ray_reach(
                    self.model(),
                    active_color,
                    from,
                    direction.spec_vertical(),
                    direction.spec_horizontal(),
                    i,
                ),
    {
        let dv: i8 = direction.vertical_component();
        let dh: i8 = direction.horizontal_component();
        let ghost gdv = direction.spec_vertical();
        let ghost gdh = direction.spec_horizontal();
        let mut bb = Bitboard::new(0);
        proof {
            crate::bitboard::lemma_zero_bits();
        }
        let mut k: u8 = 1;
        let mut cur = increment_square_in_direction(&from, dv, dh);
        proof {
            assert(1 * gdv == gdv && 1 * gdh == gdh) by (nonlinear_arith);
        }
        loop
            invariant
                self.wf(),
                from.in_bounds(),
                1 <= k <= 8,
                -1 <= gdv <= 1,
                -1 <= gdh <= 1,
                !(gdv == 0 && gdh == 0),
                dv as int == gdv,
                dh as int == gdh,
                gdv == direction.spec_vertical(),
                gdh == direction.spec_horizontal(),
                ray_prefix_free(self.model(), from, gdv, gdh, k as int),
                (match cur {
                    Some(s) => s.in_bounds() && s.rank as int == step_rank(from, gdv, k as int)
                        && s.file as int == step_file(from, gdh, k as int),
                    None => !in_board(
                        step_rank(from, gdv, k as int),
                        step_file(from, gdh, k as int),
                    ),
                }),
                forall|i: int|
                    0 <= i < 64 ==> (#[trigger] bit_set(bb.0, i) <==> (exists|j: int|
                        1 <= j < k && i == #[trigger] step_idx(from, gdv, gdh, j))),
            decreases 8 - k,
        {
            proof {
                assert((k + 1) * gdv == k * gdv + gdv && (k + 1) * gdh == k * gdh + gdh)
                    by (nonlinear_arith);
            }
            match cur {
                None => {
                    proof {
                        lemma_ray_exit_edge(self.model(), active_color, from, gdv, gdh, k as int);
                        assert forall|i: int| 0 <= i < 64 implies #[trigger] bit_set(bb.0, i)
                            == ray_reach(self.model(), active_color, from, gdv, gdh, i) by {
                            assert(placement_square_ok(self.placement(), i));
                            if bit_set(bb.0, i) {
                                let j = choose|j: int|
                                    1 <= j < k && i == #[trigger] step_idx(from, gdv, gdh, j);
                                assert(ray_sq_free(self.model(), from, gdv, gdh, j));
                                lemma_prefix_clear(self.model(), from, gdv, gdh, k as int, j);
                                assert(ray_hit(self.model(), active_color, from, gdv, gdh, i, j));
                            }
                            if ray_reach(self.model(), active_color, from, gdv, gdh, i) {
                                let j = choose|j: int|
                                    #[trigger] ray_hit(self.model(), active_color, from, gdv, gdh, i, j);
                                assert(j < k);
                            }
                        }
                    }
                    return bb;
                },
                Some(sq) => {
                    let idx: u8 = 8 * sq.rank + sq.file;
                    let ghost gi = idx as int;
                    proof {
                        assert(gi == step_idx(from, gdv, gdh, k as int));
                        assert(placement_square_ok(self.placement(), gi));
                    }
                    if self.color_pieces(active_color).is_bit_set(idx) {
                        // One of our own pieces blocks the ray; it is not
                        // included.
                        proof {
                            assert forall|i: int| 0 <= i < 64 implies #[trigger] bit_set(bb.0, i)
                                == ray_reach(self.model(), active_color, from, gdv, gdh, i) by {
                                assert(placement_square_ok(self.placement(), i));
                                if bit_set(bb.0, i) {
                                    let j = choose|j: int|
                                        1 <= j < k && i == #[trigger] step_idx(from, gdv, gdh, j);
                                    assert(ray_sq_free(self.model(), from, gdv, gdh, j));
                                    lemma_prefix_clear(self.model(), from, gdv, gdh, k as int, j);
                                    assert(ray_hit(self.model(), active_color, from, gdv, gdh, i, j));
                                }
                                if ray_reach(self.model(), active_color, from, gdv, gdh, i) {
                                    let j = choose|j: int|
                                        #[trigger] ray_hit(self.model(), active_color, from, gdv, gdh, i, j);
                                    if j > k {
                                        assert(!self.model().occupied(
                                            step_idx(from, gdv, gdh, k as int),
                                        ));
                                        assert(false);
                                    }
                                    if j == k {
                                        assert(self.model().color_at(gi, active_color));
                                        assert(false);
                                    }
                                    assert(j < k);
                                }
                            }
                        }
                        return bb;
                    }
                    let enemy_here = self.color_pieces(active_color.not()).is_bit_set(idx);
                    bb = bb.set_bit(idx, true);
                    if enemy_here {
                        // An enemy piece: its square can be captured on, but
                        // the ray stops there.
                        proof {
                            assert forall|i: int| 0 <= i < 64 implies #[trigger] bit_set(bb.0, i)
                                == ray_reach(self.model(), active_color, from, gdv, gdh, i) by {
                                assert(placement_square_ok(self.placement(), i));
                                if bit_set(bb.0, i) {
                                    if i == gi {
                                        lemma_prefix_clear(
                                            self.model(),
                                            from,
                                            gdv,
                                            gdh,
                                            k as int,
                                            k as int,
                                        );
                                        assert(ray_hit(
                                            self.model(),
                                            active_color,
                                            from,
                                            gdv,
                                            gdh,
                                            i,
                                            k as int,
                                        ));
                                    } else {
                                        let j = choose|j: int|
                                            1 <= j < k && i == #[trigger] step_idx(from, gdv, gdh, j);
                                        assert(ray_sq_free(self.model(), from, gdv, gdh, j));
                                        lemma_prefix_clear(self.model(), from, gdv, gdh, k as int, j);
                                        assert(ray_hit(self.model(), active_color, from, gdv, gdh, i, j));
                                    }
                                }
                                if ray_reach(self.model(), active_color, from, gdv, gdh, i) {
                                    let j = choose|j: int|
                                        #[trigger] ray_hit(self.model(), active_color, from, gdv, gdh, i, j);
                                    if j > k {
                                        assert(!self.model().occupied(
                                            step_idx(from, gdv, gdh, k as int),
                                        ));
                                    }
                                    assert(j <= k);
                                    if j == k {
                                        assert(i == gi);
                                        assert(bit_set(bb.0, i));
                                    }
                                }
                            }
                        }
                        return bb;
                    }
                    if k == 8 {
                        // Unreachable: a ray from an on-board square leaves
                        // the board within seven steps.
                        proof {
                            lemma_step_escapes(from, gdv, gdh);
                            assert(false);
                        }
                    }
                    proof {
                        assert(placement_square_ok(self.placement(), gi));
                        if self.model().occupied(gi) {
                            let p = self.piece_mailbox@[gi]->0;
                            assert(p.color is White || p.color is Black);
                            assert(bit_set(self.color_bits(p.color), gi));
                            assert(false);
                        }
                        assert(!self.model().occupied(gi));
                        assert(step_idx(from, gdv, gdh, k as int) == gi);
                        assert(in_board(step_rank(from, gdv, k as int), step_file(from, gdh, k as int)));
                        lemma_ray_prefix_extend(self.model(), from, gdv, gdh, k as int);
                    }
                    cur = increment_square_in_direction(&sq, dv, dh);
                    k = k + 1;
                },
            }
        }
    }

    /// All valid squares that a bishop of the active color on `from` can
    /// move to, taking occupancy into account.
    pub fn bishop_moves(&self, active_color: PlayerColor, from: Square) -> (r: Bitboard)
        requires
            self.wf(),
            from.in_bounds(),
        ensures
            forall|i: int|
                0 <= i < 64 ==> #[trigger] bit_set(r.0, i) == bishop_reach(
                    self.model(),
                    active_color,
                    from,
                    i,
                ),
    {
        let a = self.moves_in_direction(active_color, from, Direction::new_unchecked(1, 1));
        let b = self.moves_in_direction(active_color, from, Direction::new_unchecked(1, -1));
        let c = self.moves_in_direction(active_color, from, Direction::new_unchecked(-1, 1));
        let d = self.moves_in_direction(active_color, from, Direction::new_unchecked(-1, -1));
        let r = Bitboard(a.0 | b.0 | c.0 | d.0);
        proof {
            broadcast use crate::bitboard::lemma_bit_or;

        }
        r
    }

    /// All valid squares that a rook of the active color on `from` can move
    /// to, taking occupancy into account.
    pub fn rook_moves(&self, active_color: PlayerColor, from: Square) -> (r: Bitboard)
        requires
            self.wf(),
            from.in_bounds(),
        ensures
            forall|i: int|
                0 <= i < 64 ==> #[trigger] bit_set(r.0, i) == rook_reach(
                    self.model(),
                    active_color,
                    from,
                    i,
                ),
    {
        let a = self.moves_in_direction(active_color, from, Direction::new_unchecked(1, 0));
        let b = self.moves_in_direction(active_color, from, Direction::new_unchecked(-1, 0));
        let c = self.moves_in_direction(active_color, from, Direction::new_unchecked(0, 1));
        let d = self.moves_in_direction(active_color, from, Direction::new_unchecked(0, -1));
        let r = Bitboard(a.0 | b.0 | c.0 | d.0);
        proof {
            broadcast use crate::bitboard::lemma_bit_or;

        }
        r
    }

    /// All valid squares that a queen of the active color on `from` can move
    /// to: everywhere a bishop or a rook there could.
    pub fn queen_moves(&self, active_color: PlayerColor, from: Square) -> (r: Bitboard)
        requires
            self.wf(),
            from.in_bounds(),
        ensures
            forall|i: int|
                0 <= i < 64 ==> #[trigger] bit_set(r.0, i) == queen_reach(
                    self.model(),
                    active_color,
                    from,
                    i,
                ),
    {
        let b = self.bishop_moves(active_color, from);
        let r = self.rook_moves(active_color, from);
        let q = Bitboard(b.0 | r.0);
        proof {
            broadcast use crate::bitboard::lemma_bit_or;

        }
        q
    }

    /// The move mask of a piece of the given type, against this board's
    /// occupancy: pushes for a pawn, the usual mask for every other piece.
    pub fn piece_moves(&self, active_color: PlayerColor, piece_type: PieceType, from: Square) -> (r:
        Bitboard)
        requires
            self.wf(),
            from.in_bounds(),
        ensures
            forall|i: int|
                0 <= i < 64 ==> #[trigger] bit_set(r.0, i) == piece_move_reach(
                    self.model(),
                    active_color,
                    piece_type,
                    from,
                    i,
                ),
    {
        match piece_type {
            PieceType::Pawn => self.pawn_moves(active_color, from),
            PieceType::Knight => self.knight_moves(active_color, from),
            PieceType::Bishop => self.bishop_moves(active_color, from),
            PieceType::Rook => self.rook_moves(active_color, from),
            PieceType::Queen => self.queen_moves(active_color, from),
            PieceType::King => self.king_moves(active_color, from),
        }
    }

    /// The capture mask of a piece of the given type: diagonal captures for
    /// a pawn, the usual mask for every other piece.
    pub fn piece_captures(&self, active_color: PlayerColor, piece_type: PieceType, from: Square) -> (r:
        Bitboard)
        requires
            self.wf(),
            from.in_bounds(),
        ensures
            forall|i: int|
                0 <= i < 64 ==> #[trigger] bit_set(r.0, i) == piece_capture_reach(
                    self.model(),
                    active_color,
                    piece_type,
                    from,
                    i,
                ),
    {
        match piece_type {
            PieceType::Pawn => self.pawn_attacks(active_color, from),
            PieceType::Knight => self.knight_moves(active_color, from),
            PieceType::Bishop => self.bishop_moves(active_color, from),
            PieceType::Rook => self.rook_moves(active_color, from),
            PieceType::Queen => self.queen_moves(active_color, from),
            PieceType::King => self.king_moves(active_color, from),
        }
    }
}

/// If the `k`-th step in a direction leaves the board, every later step does
/// too: the walk moves monotonically towards the edge it left by.
proof fn lemma_ray_exit_edge(
    model: BoardModel,
    c: PlayerColor,
    from: Square,
    dv: int,
    dh: int,
    k: int,
)
    requires
        from.in_bounds(),
        1 <= k,
        -1 <= dv <= 1,
        -1 <= dh <= 1,
        !in_board(step_rank(from, dv, k), step_file(from, dh, k)),
    ensures
        forall|i: int, j: int|
            j >= k ==> !(#[trigger] ray_hit(model, c, from, dv, dh, i, j)),
{
    assert forall|i: int, j: int| j >= k implies !(#[trigger] ray_hit(
        model,
        c,
        from,
        dv,
        dh,
        i,
        j,
    )) by {
        if ray_hit(model, c, from, dv, dh, i, j) {
            lemma_step_monotone(from, dv, dh, k, j);
            assert(false);
        }
    }
}

/// Between two steps of one ray, the coordinates move monotonically: if the
/// earlier step is off the board, the later step is off the board too.
proof fn lemma_step_monotone(from: Square, dv: int, dh: int, k: int, j: int)
    requires
        from.in_bounds(),
        -1 <= dv <= 1,
        -1 <= dh <= 1,
        1 <= k <= j,
        !in_board(step_rank(from, dv, k), step_file(from, dh, k)),
    ensures
        !in_board(step_rank(from, dv, j), step_file(from, dh, j)),
{
    assert(dv >= 0 ==> j * dv >= k * dv) by (nonlinear_arith)
        requires
            k <= j,
    ;
    assert(dv <= 0 ==> j * dv <= k * dv) by (nonlinear_arith)
        requires
            k <= j,
    ;
    assert(dh >= 0 ==> j * dh >= k * dh) by (nonlinear_arith)
        requires
            k <= j,
    ;
    assert(dh <= 0 ==> j * dh <= k * dh) by (nonlinear_arith)
        requires
            k <= j,
    ;
    assert(k * dv < 0 ==> dv < 0) by (nonlinear_arith)
        requires
            k >= 1,
    ;
    assert(k * dv > 0 ==> dv > 0) by (nonlinear_arith)
        requires
            k >= 1,
    ;
    assert(k * dh < 0 ==> dh < 0) by (nonlinear_arith)
        requires
            k >= 1,
    ;
    assert(k * dh > 0 ==> dh > 0) by (nonlinear_arith)
        requires
            k >= 1,
    ;
    if step_rank(from, dv, k) < 0 {
        assert(k * dv < 0);
        assert(step_rank(from, dv, j) <= step_rank(from, dv, k));
    } else if step_rank(from, dv, k) > 7 {
        assert(k * dv > 0);
        assert(step_rank(from, dv, j) >= step_rank(from, dv, k));
    } else if step_file(from, dh, k) < 0 {
        assert(k * dh < 0);
        assert(step_file(from, dh, j) <= step_file(from, dh, k));
    } else {
        assert(step_file(from, dh, k) > 7);
        assert(k * dh > 0);
        assert(step_file(from, dh, j) >= step_file(from, dh, k));
    }
}

/// From any square, the eighth step of any direction is off the board.
proof fn lemma_step_escapes(from: Square, dv: int, dh: int)
    requires
        from.in_bounds(),
        -1 <= dv <= 1,
        -1 <= dh <= 1,
        !(dv == 0 && dh == 0),
    ensures
        !in_board(step_rank(from, dv, 8), step_file(from, dh, 8)),
{
    if dv == 1 {
        assert(step_rank(from, dv, 8) == from.rank + 8);
    } else if dv == -1 {
        assert(step_rank(from, dv, 8) == from.rank - 8);
    } else if dh == 1 {
        assert(step_file(from, dh, 8) == from.file + 8);
    } else {
        assert(step_file(from, dh, 8) == from.file - 8);
    }
}

} // verus!
