//! The position: twelve bitboards, one per colour and piece kind, and the side
//! to move. Moves are looked up with [`Board::get_legal_moves`] and applied
//! with [`Board::make_move`], the only operation that changes a position.

use vstd::prelude::*;
use crate::bitboard::constants;
use crate::bitboard::membership::{
    lemma_apart,
    lemma_member_bitwise,
    lemma_member_constant,
    lemma_member_single,
    member,
    squares,
};
use crate::bitboard::operations::{bitboard_to_square, square_to_bitboard};
use crate::movement::validator;
use crate::movement::validator::move_verdict;
use crate::pieces::bishop;
use crate::pieces::bishop::bishop_destinations;
use crate::pieces::king;
use crate::pieces::king::king_destinations;
use crate::pieces::knight;
use crate::pieces::knight::knight_destinations;
use crate::pieces::pawn;
use crate::pieces::pawn::pawn_destinations;
use crate::pieces::piece_type::{of_side, Color, MoveError, PieceType};
use crate::pieces::queen;
use crate::pieces::queen::queen_destinations;
use crate::pieces::rook;
use crate::pieces::rook::rook_destinations;

verus! {

/// A position. Each bitboard holds the squares of the pieces of one colour
/// and kind; see [`Board::disjoint`] for the invariant that a position is
/// meant to keep.
pub struct Board {
    pub white_pawns: u64,
    pub black_pawns: u64,
    pub white_knights: u64,
    pub black_knights: u64,
    pub white_bishops: u64,
    pub black_bishops: u64,
    pub white_rooks: u64,
    pub black_rooks: u64,
    pub white_kings: u64,
    pub black_kings: u64,
    pub white_queens: u64,
    pub black_queens: u64,
    pub side_to_move: Color,
}

/// The bitboard `bb` after its piece on `from` has gone to `to`.
pub open spec fn relocated(bb: u64, from: int, to: int) -> u64 {
    (bb & !(1u64 << from)) | (1u64 << to)
}

/// The bitboard `bb` without the square `at`.
pub open spec fn vacated(bb: u64, at: int) -> u64 {
    bb & !(1u64 << at)
}

/// What becomes of a bitboard of the mover when a piece of kind `moving` goes
/// from `from` to `to`: the bitboard of that kind is relocated, the others stay.
pub open spec fn mover_mask(bb: u64, kind: PieceType, moving: PieceType, from: int, to: int) -> u64 {
    if kind == moving {
        relocated(bb, from, to)
    } else {
        bb
    }
}

/// 1 if the bitboard holds the square, else 0.
pub open spec fn holds(bb: u64, sq: int) -> int {
    if member(bb, sq) {
        1
    } else {
        0
    }
}

impl Board {
    /// The squares held by White's pieces.
    pub open spec fn white_occupancy(&self) -> u64 {
        self.white_pawns | self.white_knights | self.white_bishops | self.white_rooks
            | self.white_kings | self.white_queens
    }

    /// The squares held by Black's pieces.
    pub open spec fn black_occupancy(&self) -> u64 {
        self.black_pawns | self.black_knights | self.black_bishops | self.black_rooks
            | self.black_kings | self.black_queens
    }

    /// The squares held by the pieces of `side`.
    pub open spec fn occupancy_of(&self, side: Color) -> u64 {
        of_side(side, self.white_occupancy(), self.black_occupancy())
    }

    /// The number of bitboards, out of the twelve, that hold `sq`.
    pub open spec fn holders(&self, sq: int) -> int {
        holds(self.white_pawns, sq) + holds(self.black_pawns, sq) + holds(self.white_knights, sq)
            + holds(self.black_knights, sq) + holds(self.white_bishops, sq) + holds(
            self.black_bishops,
            sq,
        ) + holds(self.white_rooks, sq) + holds(self.black_rooks, sq) + holds(self.white_kings, sq)
            + holds(self.black_kings, sq) + holds(self.white_queens, sq) + holds(
            self.black_queens,
            sq,
        )
    }

    /// The twelve bitboards in the order of the fields.
    pub open spec fn masks(&self) -> Seq<u64> {
        seq![
            self.white_pawns,
            self.black_pawns,
            self.white_knights,
            self.black_knights,
            self.white_bishops,
            self.black_bishops,
            self.white_rooks,
            self.black_rooks,
            self.white_kings,
            self.black_kings,
            self.white_queens,
            self.black_queens,
        ]
    }

    /// The invariant of a position: the twelve bitboards are pairwise
    /// disjoint, that is, the bitwise AND of any two of them is zero.
    pub open spec fn disjoint(&self) -> bool {
        forall|i: int, j: int|
            0 <= i < j < 12 ==> #[trigger] self.masks()[i] & #[trigger] self.masks()[j] == 0
    }

    /// No square is held by more than one of the twelve bitboards.
    pub open spec fn singly_held(&self) -> bool {
        forall|sq: int| 0 <= sq < 64 ==> #[trigger] self.holders(sq) <= 1
    }

    /// The bitboards are pairwise disjoint exactly when no square is held twice.
    pub proof fn lemma_disjoint_by_square(&self)
        ensures
            self.disjoint() == self.singly_held(),
    {
        let m: Seq<u64> = self.masks();
        assert forall|i: int, j: int| 0 <= i < j < 12 implies (#[trigger] m[i] & #[trigger] m[j] == 0)
            == (forall|sq: int| 0 <= sq < 64 ==> !(member(m[i], sq) && member(m[j], sq))) by {
            lemma_apart(m[i], m[j]);
        }
        if self.disjoint() {
            assert forall|sq: int| 0 <= sq < 64 implies #[trigger] self.holders(sq) <= 1 by {
                assert forall|i: int, j: int| 0 <= i < j < 12 implies !(member(#[trigger] m[i], sq)
                    && member(#[trigger] m[j], sq)) by {}
            }
        }
        if self.singly_held() {
            assert forall|i: int, j: int| 0 <= i < j < 12 implies #[trigger] m[i] & #[trigger] m[j]
                == 0 by {
                assert forall|sq: int| 0 <= sq < 64 implies !(member(m[i], sq) && member(
                    m[j],
                    sq,
                )) by {
                    assert(self.holders(sq) <= 1);
                }
            }
        }
    }

    /// The piece that is looked up on `sq`: the first bitboard that holds the
    /// square decides, pawns before knights, bishops, rooks, kings and queens,
    /// and White before Black within a kind.
    pub open spec fn piece_on(&self, sq: int) -> Option<(PieceType, Color)> {
        if member(self.white_pawns, sq) {
            Some((PieceType::Pawn, Color::White))
        } else if member(self.black_pawns, sq) {
            Some((PieceType::Pawn, Color::Black))
        } else if member(self.white_knights, sq) {
            Some((PieceType::Knight, Color::White))
        } else if member(self.black_knights, sq) {
            Some((PieceType::Knight, Color::Black))
        } else if member(self.white_bishops, sq) {
            Some((PieceType::Bishop, Color::White))
        } else if member(self.black_bishops, sq) {
            Some((PieceType::Bishop, Color::Black))
        } else if member(self.white_rooks, sq) {
            Some((PieceType::Rook, Color::White))
        } else if member(self.black_rooks, sq) {
            Some((PieceType::Rook, Color::Black))
        } else if member(self.white_kings, sq) {
            Some((PieceType::King, Color::White))
        } else if member(self.black_kings, sq) {
            Some((PieceType::King, Color::Black))
        } else if member(self.white_queens, sq) {
            Some((PieceType::Queen, Color::White))
        } else if member(self.black_queens, sq) {
            Some((PieceType::Queen, Color::Black))
        } else {
            None
        }
    }

    /// The pseudo-legal destinations of the piece on `from`: those of its
    /// kind if it belongs to the side to move, none otherwise. Whether a move
    /// exposes the mover's king is not considered.
    pub open spec fn destinations(&self, from: int) -> Set<int> {
        let side = self.side_to_move;
        let own = self.occupancy_of(side);
        let opponent = self.occupancy_of(side.opposite());
        match self.piece_on(from) {
            Some((kind, color)) => if color != side {
                Set::empty()
            } else {
                match kind {
                    PieceType::Pawn => pawn_destinations(
                        from,
                        self.white_pawns,
                        self.black_pawns,
                        self.white_occupancy() | self.black_occupancy(),
                        side,
                    ),
                    PieceType::Knight => knight_destinations(from, own),
                    PieceType::Bishop => bishop_destinations(from, own, opponent),
                    PieceType::Rook => rook_destinations(from, own, opponent),
                    PieceType::King => king_destinations(from, own),
                    PieceType::Queen => queen_destinations(from, own, opponent),
                }
            },
            None => Set::empty(),
        }
    }

    /// The verdict on the move from `from` to `to` in this position.
    pub open spec fn verdict(&self, from: int, to: int) -> Result<(), MoveError> {
        move_verdict(
            from,
            to,
            self.side_to_move,
            self.white_occupancy(),
            self.black_occupancy(),
            self.destinations(from),
        )
    }

    /// The position after the piece on `from` has moved to `to`: its bitboard
    /// loses `from` and gains `to`, every bitboard of the opponent loses `to`,
    /// and the turn passes to the opponent.
    pub open spec fn after_move(&self, from: int, to: int) -> Board {
        match self.piece_on(from) {
            None => *self,
            Some((moving, _)) => match self.side_to_move {
                Color::White => Board {
                    white_pawns: mover_mask(self.white_pawns, PieceType::Pawn, moving, from, to),
                    white_knights: mover_mask(self.white_knights, PieceType::Knight, moving, from, to),
                    white_bishops: mover_mask(self.white_bishops, PieceType::Bishop, moving, from, to),
                    white_rooks: mover_mask(self.white_rooks, PieceType::Rook, moving, from, to),
                    white_kings: mover_mask(self.white_kings, PieceType::King, moving, from, to),
                    white_queens: mover_mask(self.white_queens, PieceType::Queen, moving, from, to),
                    black_pawns: vacated(self.black_pawns, to),
                    black_knights: vacated(self.black_knights, to),
                    black_bishops: vacated(self.black_bishops, to),
                    black_rooks: vacated(self.black_rooks, to),
                    black_kings: vacated(self.black_kings, to),
                    black_queens: vacated(self.black_queens, to),
                    side_to_move: Color::Black,
                },
                Color::Black => Board {
                    black_pawns: mover_mask(self.black_pawns, PieceType::Pawn, moving, from, to),
                    black_knights: mover_mask(self.black_knights, PieceType::Knight, moving, from, to),
                    black_bishops: mover_mask(self.black_bishops, PieceType::Bishop, moving, from, to),
                    black_rooks: mover_mask(self.black_rooks, PieceType::Rook, moving, from, to),
                    black_kings: mover_mask(self.black_kings, PieceType::King, moving, from, to),
                    black_queens: mover_mask(self.black_queens, PieceType::Queen, moving, from, to),
                    white_pawns: vacated(self.white_pawns, to),
                    white_knights: vacated(self.white_knights, to),
                    white_bishops: vacated(self.white_bishops, to),
                    white_rooks: vacated(self.white_rooks, to),
                    white_kings: vacated(self.white_kings, to),
                    white_queens: vacated(self.white_queens, to),
                    side_to_move: Color::White,
                },
            },
        }
    }

    /// What the occupancy of each side holds: the squares of its six bitboards.
    pub proof fn lemma_occupancy(&self)
        ensures
            forall|sq: int|
                #[trigger] member(self.white_occupancy(), sq) == (member(self.white_pawns, sq)
                    || member(self.white_knights, sq) || member(self.white_bishops, sq) || member(
                    self.white_rooks,
                    sq,
                ) || member(self.white_kings, sq) || member(self.white_queens, sq)),
            forall|sq: int|
                #[trigger] member(self.black_occupancy(), sq) == (member(self.black_pawns, sq)
                    || member(self.black_knights, sq) || member(self.black_bishops, sq) || member(
                    self.black_rooks,
                    sq,
                ) || member(self.black_kings, sq) || member(self.black_queens, sq)),
    {
        let w1: u64 = self.white_pawns | self.white_knights;
        let w2: u64 = w1 | self.white_bishops;
        let w3: u64 = w2 | self.white_rooks;
        let w4: u64 = w3 | self.white_kings;
        lemma_member_bitwise(self.white_pawns, self.white_knights);
        lemma_member_bitwise(w1, self.white_bishops);
        lemma_member_bitwise(w2, self.white_rooks);
        lemma_member_bitwise(w3, self.white_kings);
        lemma_member_bitwise(w4, self.white_queens);
        let b1: u64 = self.black_pawns | self.black_knights;
        let b2: u64 = b1 | self.black_bishops;
        let b3: u64 = b2 | self.black_rooks;
        let b4: u64 = b3 | self.black_kings;
        lemma_member_bitwise(self.black_pawns, self.black_knights);
        lemma_member_bitwise(b1, self.black_bishops);
        lemma_member_bitwise(b2, self.black_rooks);
        lemma_member_bitwise(b3, self.black_kings);
        lemma_member_bitwise(b4, self.black_queens);
    }

    /// The standard starting position, White to move.
    pub fn new() -> (board: Board)
        ensures
            board == (Board {
                white_pawns: constants::RANK_2,
                black_pawns: constants::RANK_7,
                white_knights: 0x0000_0000_0000_0042,
                black_knights: 0x4200_0000_0000_0000,
                white_bishops: 0x0000_0000_0000_0024,
                black_bishops: 0x2400_0000_0000_0000,
                white_rooks: 0x0000_0000_0000_0081,
                black_rooks: 0x8100_0000_0000_0000,
                white_kings: 0x0000_0000_0000_0010,
                black_kings: 0x1000_0000_0000_0000,
                white_queens: 0x0000_0000_0000_0008,
                black_queens: 0x0800_0000_0000_0000,
                side_to_move: Color::White,
            }),
            board.disjoint(),
            forall|sq: int| 0 <= sq < 64 ==> #[trigger] board.piece_on(sq) == starting_piece(sq),
    {
        let board = Board {
            white_pawns: constants::RANK_2,
            black_pawns: constants::RANK_7,
            white_knights: 0x0000_0000_0000_0042,
            black_knights: 0x4200_0000_0000_0000,
            white_bishops: 0x0000_0000_0000_0024,
            black_bishops: 0x2400_0000_0000_0000,
            white_rooks: 0x0000_0000_0000_0081,
            black_rooks: 0x8100_0000_0000_0000,
            white_kings: 0x0000_0000_0000_0010,
            black_kings: 0x1000_0000_0000_0000,
            white_queens: 0x0000_0000_0000_0008,
            black_queens: 0x0800_0000_0000_0000,
            side_to_move: Color::White,
        };
        proof {
            assert forall|sq: int| 0 <= sq < 64 implies #[trigger] board.piece_on(sq)
                == starting_piece(sq) by {
                lemma_starting_bits(sq as u64);
            }
            assert forall|sq: int| 0 <= sq < 64 implies #[trigger] board.holders(sq) <= 1 by {
                lemma_starting_bits(sq as u64);
            }
            board.lemma_disjoint_by_square();
        }
        board
    }

    /// The squares held by White's pieces.
    pub fn white_pieces(&self) -> (pieces: u64)
        ensures
            pieces == self.white_occupancy(),
    {
        self.white_pawns | self.white_knights | self.white_bishops | self.white_rooks
            | self.white_kings | self.white_queens
    }

    /// The squares held by Black's pieces.
    pub fn black_pieces(&self) -> (pieces: u64)
        ensures
            pieces == self.black_occupancy(),
    {
        self.black_pawns | self.black_knights | self.black_bishops | self.black_rooks
            | self.black_kings | self.black_queens
    }

    /// The occupied squares.
    pub fn all_pieces(&self) -> (pieces: u64)
        ensures
            pieces == self.white_occupancy() | self.black_occupancy(),
    {
        self.white_pieces() | self.black_pieces()
    }

    /// Passes the turn to the other side.
    pub fn toggle_side_to_move(&mut self)
        ensures
            *final(self) == (Board { side_to_move: old(self).side_to_move.opposite(), ..*old(self) }),
    {
        self.side_to_move = match self.side_to_move {
            Color::White => Color::Black,
            Color::Black => Color::White,
        };
    }

    /// The kind and colour of the piece on `square`, if any.
    pub fn get_piece_type_at(&self, square: usize) -> (piece: Option<(PieceType, Color)>)
        requires
            square < 64,
        ensures
            piece == self.piece_on(square as int),
    {
        let bb: u64 = square_to_bitboard(square);

        if self.white_pawns & bb != 0 {
            Some((PieceType::Pawn, Color::White))
        } else if self.black_pawns & bb != 0 {
            Some((PieceType::Pawn, Color::Black))
        } else if self.white_knights & bb != 0 {
            Some((PieceType::Knight, Color::White))
        } else if self.black_knights & bb != 0 {
            Some((PieceType::Knight, Color::Black))
        } else if self.white_bishops & bb != 0 {
            Some((PieceType::Bishop, Color::White))
        } else if self.black_bishops & bb != 0 {
            Some((PieceType::Bishop, Color::Black))
        } else if self.white_rooks & bb != 0 {
            Some((PieceType::Rook, Color::White))
        } else if self.black_rooks & bb != 0 {
            Some((PieceType::Rook, Color::Black))
        } else if self.white_kings & bb != 0 {
            Some((PieceType::King, Color::White))
        } else if self.black_kings & bb != 0 {
            Some((PieceType::King, Color::Black))
        } else if self.white_queens & bb != 0 {
            Some((PieceType::Queen, Color::White))
        } else if self.black_queens & bb != 0 {
            Some((PieceType::Queen, Color::Black))
        } else {
            None
        }
    }

    /// The pseudo-legal destinations of the piece on `from`, as a bitboard:
    /// empty if the square is empty or holds a piece of the side that is not
    /// to move.
    pub fn get_legal_moves(&self, from: usize) -> (moves: u64)
        requires
            from < 64,
        ensures
            squares(moves) == self.destinations(from as int),
            (self.piece_on(from as int) matches Some((_, color)) && color == self.side_to_move)
                || moves == 0,
    {
        proof {
            lemma_member_constant();
            assert forall|to: int| !squares(0).contains(to) by {}
        }
        if let Some((piece_type, color)) = self.get_piece_type_at(from) {
            if color != self.side_to_move {
                return 0;
            }
            match piece_type {
                PieceType::Pawn => self.get_pawn_moves(from),
                PieceType::Knight => knight::get_knight_moves(
                    from,
                    self.white_knights,
                    self.black_knights,
                    self.white_pieces(),
                    self.black_pieces(),
                    self.side_to_move,
                ),
                PieceType::Bishop => bishop::get_bishop_moves(
                    from,
                    self.white_bishops,
                    self.black_bishops,
                    self.white_pieces(),
                    self.black_pieces(),
                    self.side_to_move,
                ),
                PieceType::Rook => rook::get_rook_moves(
                    from,
                    self.white_rooks,
                    self.black_rooks,
                    self.white_pieces(),
                    self.black_pieces(),
                    self.side_to_move,
                ),
                PieceType::King => king::get_king_moves(
                    from,
                    self.white_kings,
                    self.black_kings,
                    self.white_pieces(),
                    self.black_pieces(),
                    self.side_to_move,
                ),
                PieceType::Queen => queen::get_queen_moves(
                    from,
                    self.white_queens,
                    self.black_queens,
                    self.white_pieces(),
                    self.black_pieces(),
                    self.side_to_move,
                ),
            }
        } else {
            0
        }
    }

    /// The bitboard that holds exactly `square`.
    pub fn square_to_bitboard(square: usize) -> (mask: u64)
        requires
            square < 64,
        ensures
            mask == 1u64 << square,
            squares(mask) == set![square as int],
    {
        square_to_bitboard(square)
    }

    /// The square of a bitboard that holds exactly one square; `None` for
    /// every other bitboard.
    pub fn bitboard_to_square(bitboard: u64) -> (square: Option<usize>)
        ensures
            match square {
                Some(sq) => sq < 64 && bitboard == 1u64 << sq,
                None => forall|sq: int| 0 <= sq < 64 ==> bitboard != 1u64 << sq,
            },
    {
        bitboard_to_square(bitboard)
    }

    /// The pseudo-legal destinations of the pawn of the side to move on
    /// `from`, with every piece of the position counted as an occupant; empty
    /// if no such pawn stands there.
    pub fn get_pawn_moves(&self, from: usize) -> (moves: u64)
        requires
            from < 64,
        ensures
            squares(moves) == if member(
                of_side(self.side_to_move, self.white_pawns, self.black_pawns),
                from as int,
            ) {
                pawn_destinations(
                    from as int,
                    self.white_pawns,
                    self.black_pawns,
                    self.white_occupancy() | self.black_occupancy(),
                    self.side_to_move,
                )
            } else {
                Set::empty()
            },
            !member(of_side(self.side_to_move, self.white_pawns, self.black_pawns), from as int)
                ==> moves == 0,
    {
        let occupied: u64 = self.all_pieces();
        pawn::get_pawn_moves_among(
            from,
            self.white_pawns,
            self.black_pawns,
            occupied,
            self.side_to_move,
        )
    }

    /// Validates the move from `from` to `to` and applies it. A rejected
    /// move leaves the position untouched. A move that leaves the mover's own
    /// king attacked is accepted.
    pub fn make_move(&mut self, from: usize, to: usize) -> (outcome: Result<(), MoveError>)
        requires
            from < 64,
            to < 64,
        ensures
            outcome == old(self).verdict(from as int, to as int),
            outcome != Err::<(), MoveError>(MoveError::PathBlocked),
            outcome is Ok ==> *final(self) == old(self).after_move(from as int, to as int),
            outcome is Ok ==> final(self).side_to_move == old(self).side_to_move.opposite(),
            outcome is Err ==> *final(self) == *old(self),
            old(self).disjoint() ==> final(self).disjoint(),
    {
        let legal_moves: u64 = self.get_legal_moves(from);
        match validator::validate_move(
            from,
            to,
            self.side_to_move,
            self.white_pieces(),
            self.black_pieces(),
            legal_moves,
        ) {
            Err(error) => {
                return Err(error);
            },
            Ok(()) => {},
        }

        let from_bb: u64 = square_to_bitboard(from);
        let to_bb: u64 = square_to_bitboard(to);

        let piece_opt: Option<(PieceType, Color)> = self.get_piece_type_at(from);
        proof {
            if old(self).disjoint() {
                old(self).lemma_move_keeps_disjoint(from as int, to as int);
            }
        }
        if piece_opt.is_none() {
            return Err(MoveError::NoPieceAtSource);
        }
        let (piece_type, _) = piece_opt.unwrap();

        match (self.side_to_move, piece_type) {
            (Color::White, PieceType::Pawn) => {
                self.white_pawns &= !from_bb;
                self.white_pawns |= to_bb;
            },
            (Color::Black, PieceType::Pawn) => {
                self.black_pawns &= !from_bb;
                self.black_pawns |= to_bb;
            },
            (Color::White, PieceType::Knight) => {
                self.white_knights &= !from_bb;
                self.white_knights |= to_bb;
            },
            (Color::Black, PieceType::Knight) => {
                self.black_knights &= !from_bb;
                self.black_knights |= to_bb;
            },
            (Color::White, PieceType::Bishop) => {
                self.white_bishops &= !from_bb;
                self.white_bishops |= to_bb;
            },
            (Color::Black, PieceType::Bishop) => {
                self.black_bishops &= !from_bb;
                self.black_bishops |= to_bb;
            },
            (Color::White, PieceType::Rook) => {
                self.white_rooks &= !from_bb;
                self.white_rooks |= to_bb;
            },
            (Color::Black, PieceType::Rook) => {
                self.black_rooks &= !from_bb;
                self.black_rooks |= to_bb;
            },
            (Color::White, PieceType::King) => {
                self.white_kings &= !from_bb;
                self.white_kings |= to_bb;
            },
            (Color::Black, PieceType::King) => {
                self.black_kings &= !from_bb;
                self.black_kings |= to_bb;
            },
            (Color::White, PieceType::Queen) => {
                self.white_queens &= !from_bb;
                self.white_queens |= to_bb;
            },
            (Color::Black, PieceType::Queen) => {
                self.black_queens &= !from_bb;
                self.black_queens |= to_bb;
            },
        }

        match self.side_to_move {
            Color::White => {
                self.black_pawns &= !to_bb;
                self.black_knights &= !to_bb;
                self.black_bishops &= !to_bb;
                self.black_rooks &= !to_bb;
                self.black_kings &= !to_bb;
                self.black_queens &= !to_bb;
            },
            Color::Black => {
                self.white_pawns &= !to_bb;
                self.white_knights &= !to_bb;
                self.white_bishops &= !to_bb;
                self.white_rooks &= !to_bb;
                self.white_kings &= !to_bb;
                self.white_queens &= !to_bb;
            },
        }

        self.toggle_side_to_move();

        Ok(())
    }

    /// In a position that keeps the invariant, no pseudo-legal destination
    /// is held by a piece of the side to move.
    pub proof fn lemma_destinations_avoid_own(&self, from: int, to: int)
        requires
            self.disjoint(),
            self.destinations(from).contains(to),
        ensures
            0 <= to < 64,
            !member(self.occupancy_of(self.side_to_move), to),
    {
        self.lemma_disjoint_by_square();
        self.lemma_occupancy();
        lemma_member_bitwise(self.white_occupancy(), self.black_occupancy());
        assert(self.holders(to) <= 1);
    }

    /// An accepted move keeps the twelve bitboards pairwise disjoint.
    pub proof fn lemma_move_keeps_disjoint(&self, from: int, to: int)
        requires
            0 <= from < 64,
            0 <= to < 64,
            self.disjoint(),
            self.verdict(from, to) is Ok,
        ensures
            self.after_move(from, to).disjoint(),
    {
        let next: Board = self.after_move(from, to);
        self.lemma_disjoint_by_square();
        next.lemma_disjoint_by_square();
        self.lemma_occupancy();
        lemma_member_relocated(self.white_pawns, from, to);
        lemma_member_relocated(self.white_knights, from, to);
        lemma_member_relocated(self.white_bishops, from, to);
        lemma_member_relocated(self.white_rooks, from, to);
        lemma_member_relocated(self.white_kings, from, to);
        lemma_member_relocated(self.white_queens, from, to);
        lemma_member_relocated(self.black_pawns, from, to);
        lemma_member_relocated(self.black_knights, from, to);
        lemma_member_relocated(self.black_bishops, from, to);
        lemma_member_relocated(self.black_rooks, from, to);
        lemma_member_relocated(self.black_kings, from, to);
        lemma_member_relocated(self.black_queens, from, to);
        assert forall|sq: int| 0 <= sq < 64 implies #[trigger] next.holders(sq) <= 1 by {
            assert(self.holders(sq) <= 1);
            assert(self.holders(from) <= 1);
        }
    }
}

/// The kind of the piece that starts the game on the given file of its
/// side's back rank: rook, knight, bishop, queen, king, bishop, knight, rook.
pub open spec fn back_rank_kind(file: int) -> PieceType {
    if file == 0 || file == 7 {
        PieceType::Rook
    } else if file == 1 || file == 6 {
        PieceType::Knight
    } else if file == 2 || file == 5 {
        PieceType::Bishop
    } else if file == 3 {
        PieceType::Queen
    } else {
        PieceType::King
    }
}

/// The piece that starts the game on `sq`: White's pieces on the first rank
/// and pawns on the second, Black's pawns on the seventh and pieces on the
/// eighth, nothing in between.
pub open spec fn starting_piece(sq: int) -> Option<(PieceType, Color)> {
    if sq / 8 == 0 {
        Some((back_rank_kind(sq % 8), Color::White))
    } else if sq / 8 == 1 {
        Some((PieceType::Pawn, Color::White))
    } else if sq / 8 == 6 {
        Some((PieceType::Pawn, Color::Black))
    } else if sq / 8 == 7 {
        Some((back_rank_kind(sq % 8), Color::Black))
    } else {
        None
    }
}

proof fn lemma_starting_bits(j: u64)
    by (bit_vector)
    requires
        j < 64,
    ensures
        (constants::RANK_2 & (1u64 << j) != 0) == (8 <= j < 16),
        (constants::RANK_7 & (1u64 << j) != 0) == (48 <= j < 56),
        (0x0000_0000_0000_0042u64 & (1u64 << j) != 0) == (j == 1 || j == 6),
        (0x4200_0000_0000_0000u64 & (1u64 << j) != 0) == (j == 57 || j == 62),
        (0x0000_0000_0000_0024u64 & (1u64 << j) != 0) == (j == 2 || j == 5),
        (0x2400_0000_0000_0000u64 & (1u64 << j) != 0) == (j == 58 || j == 61),
        (0x0000_0000_0000_0081u64 & (1u64 << j) != 0) == (j == 0 || j == 7),
        (0x8100_0000_0000_0000u64 & (1u64 << j) != 0) == (j == 56 || j == 63),
        (0x0000_0000_0000_0010u64 & (1u64 << j) != 0) == (j == 4),
        (0x1000_0000_0000_0000u64 & (1u64 << j) != 0) == (j == 60),
        (0x0000_0000_0000_0008u64 & (1u64 << j) != 0) == (j == 3),
        (0x0800_0000_0000_0000u64 & (1u64 << j) != 0) == (j == 59),
{
}

/// `after` arises from `before` by an accepted move.
pub open spec fn follows(before: Board, after: Board) -> bool {
    exists|from: int, to: int|
        0 <= from < 64 && 0 <= to < 64 && (#[trigger] before.verdict(from, to)) is Ok && after
            == before.after_move(from, to)
}

/// A sequence of positions in which each arises from the one before it by
/// an accepted move.
pub open spec fn is_play(positions: Seq<Board>) -> bool {
    forall|i: int| 0 <= i < positions.len() - 1 ==> follows(#[trigger] positions[i], positions[i + 1])
}

/// An accepted move passes the turn to the other side.
pub proof fn lemma_accepted_move_passes_turn(board: Board, from: int, to: int)
    requires
        board.verdict(from, to) is Ok,
    ensures
        board.after_move(from, to).side_to_move == board.side_to_move.opposite(),
{
}

/// The side to move alternates strictly: after `count` accepted moves from a
/// position with White to move, White is to move again exactly when `count`
/// is even.
pub proof fn lemma_side_alternates(positions: Seq<Board>, count: int)
    requires
        is_play(positions),
        0 <= count < positions.len(),
        positions[0].side_to_move == Color::White,
    ensures
        (positions[count].side_to_move == Color::White) == (count % 2 == 0),
    decreases count,
{
    if count > 0 {
        lemma_side_alternates(positions, count - 1);
        let before: Board = positions[count - 1];
        let (from, to): (int, int) = choose|from: int, to: int|
            0 <= from < 64 && 0 <= to < 64 && (#[trigger] before.verdict(from, to)) is Ok
                && positions[count] == before.after_move(from, to);
    }
}

/// What a relocated and a vacated bitboard hold.
pub proof fn lemma_member_relocated(bb: u64, from: int, to: int)
    requires
        0 <= from < 64,
        0 <= to < 64,
    ensures
        forall|sq: int|
            #[trigger] member(relocated(bb, from, to), sq) == ((member(bb, sq) && sq != from) || sq
                == to),
        forall|sq: int| #[trigger] member(vacated(bb, to), sq) == (member(bb, sq) && sq != to),
{
    lemma_member_single(from);
    lemma_member_single(to);
    lemma_member_bitwise(1u64 << from, 0);
    lemma_member_bitwise(1u64 << to, 0);
    lemma_member_bitwise(bb, !(1u64 << from));
    lemma_member_bitwise(bb, !(1u64 << to));
    lemma_member_bitwise(bb & !(1u64 << from), 1u64 << to);
}

} // verus!
