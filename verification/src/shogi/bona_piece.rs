//! BonaPiece: the (piece, square) / (hand piece, count) numbering seen from
//! one side, in the layout of the YaneuraOu KPP evaluation.

use vstd::prelude::*;
use crate::shogi::types::{Color, Piece, PieceType, Square};

verus! {

pub const F_HAND_PAWN: u16 = 1;
pub const E_HAND_PAWN: u16 = 20;
pub const F_HAND_LANCE: u16 = 39;
pub const E_HAND_LANCE: u16 = 44;
pub const F_HAND_KNIGHT: u16 = 49;
pub const E_HAND_KNIGHT: u16 = 54;
pub const F_HAND_SILVER: u16 = 59;
pub const E_HAND_SILVER: u16 = 64;
pub const F_HAND_GOLD: u16 = 69;
pub const E_HAND_GOLD: u16 = 74;
pub const F_HAND_BISHOP: u16 = 79;
pub const E_HAND_BISHOP: u16 = 82;
pub const F_HAND_ROOK: u16 = 85;
pub const E_HAND_ROOK: u16 = 88;
/// End of the hand-piece numbers; board pieces start here.
pub const FE_HAND_END: usize = 90;
pub const F_PAWN: u16 = 90;
pub const E_PAWN: u16 = 171;
pub const F_LANCE: u16 = 252;
pub const E_LANCE: u16 = 333;
pub const F_KNIGHT: u16 = 414;
pub const E_KNIGHT: u16 = 495;
pub const F_SILVER: u16 = 576;
pub const E_SILVER: u16 = 657;
pub const F_GOLD: u16 = 738;
pub const E_GOLD: u16 = 819;
pub const F_BISHOP: u16 = 900;
pub const E_BISHOP: u16 = 981;
pub const F_HORSE: u16 = 1062;
pub const E_HORSE: u16 = 1143;
pub const F_ROOK: u16 = 1224;
pub const E_ROOK: u16 = 1305;
pub const F_DRAGON: u16 = 1386;
pub const E_DRAGON: u16 = 1467;
/// Number of non-king BonaPiece values (`fe_end`).
pub const FE_OLD_END: usize = 1548;
/// Friend king plane start.
pub const F_KING: u16 = 1548;
/// Enemy king plane start.
pub const E_KING: u16 = 1629;

/// A BonaPiece value; `0` means "no piece".
#[derive(Clone, Copy, Debug, PartialEq, Eq, Structural)]
pub struct BonaPiece(pub u16);

/// Friend / enemy plane starts of a board kind; `None` for the king and the
/// empty square.
pub open spec fn spec_board_bases(pt: PieceType) -> Option<(u16, u16)> {
    match pt {
        PieceType::Pawn => Some((F_PAWN, E_PAWN)),
        PieceType::Lance => Some((F_LANCE, E_LANCE)),
        PieceType::Knight => Some((F_KNIGHT, E_KNIGHT)),
        PieceType::Silver => Some((F_SILVER, E_SILVER)),
        PieceType::Gold | PieceType::ProPawn | PieceType::ProLance | PieceType::ProKnight
        | PieceType::ProSilver => Some((F_GOLD, E_GOLD)),
        PieceType::Bishop => Some((F_BISHOP, E_BISHOP)),
        PieceType::Horse => Some((F_HORSE, E_HORSE)),
        PieceType::Rook => Some((F_ROOK, E_ROOK)),
        PieceType::Dragon => Some((F_DRAGON, E_DRAGON)),
        _ => None,
    }
}

fn board_bases(pt: PieceType) -> (r: Option<(u16, u16)>)
    ensures
        r == spec_board_bases(pt),
{
    match pt {
        PieceType::Pawn => Some((F_PAWN, E_PAWN)),
        PieceType::Lance => Some((F_LANCE, E_LANCE)),
        PieceType::Knight => Some((F_KNIGHT, E_KNIGHT)),
        PieceType::Silver => Some((F_SILVER, E_SILVER)),
        PieceType::Gold | PieceType::ProPawn | PieceType::ProLance | PieceType::ProKnight
        | PieceType::ProSilver => Some((F_GOLD, E_GOLD)),
        PieceType::Bishop => Some((F_BISHOP, E_BISHOP)),
        PieceType::Horse => Some((F_HORSE, E_HORSE)),
        PieceType::Rook => Some((F_ROOK, E_ROOK)),
        PieceType::Dragon => Some((F_DRAGON, E_DRAGON)),
        _ => None,
    }
}

/// Friend / enemy plane starts and the largest count of a hand kind.
pub open spec fn spec_hand_bases(pt: PieceType) -> Option<(u16, u16, u8)> {
    match pt {
        PieceType::Pawn => Some((F_HAND_PAWN, E_HAND_PAWN, 18u8)),
        PieceType::Lance => Some((F_HAND_LANCE, E_HAND_LANCE, 4u8)),
        PieceType::Knight => Some((F_HAND_KNIGHT, E_HAND_KNIGHT, 4u8)),
        PieceType::Silver => Some((F_HAND_SILVER, E_HAND_SILVER, 4u8)),
        PieceType::Gold => Some((F_HAND_GOLD, E_HAND_GOLD, 4u8)),
        PieceType::Bishop => Some((F_HAND_BISHOP, E_HAND_BISHOP, 2u8)),
        PieceType::Rook => Some((F_HAND_ROOK, E_HAND_ROOK, 2u8)),
        _ => None,
    }
}

fn hand_bases(pt: PieceType) -> (r: Option<(u16, u16, u8)>)
    ensures
        r == spec_hand_bases(pt),
{
    match pt {
        PieceType::Pawn => Some((F_HAND_PAWN, E_HAND_PAWN, 18)),
        PieceType::Lance => Some((F_HAND_LANCE, E_HAND_LANCE, 4)),
        PieceType::Knight => Some((F_HAND_KNIGHT, E_HAND_KNIGHT, 4)),
        PieceType::Silver => Some((F_HAND_SILVER, E_HAND_SILVER, 4)),
        PieceType::Gold => Some((F_HAND_GOLD, E_HAND_GOLD, 4)),
        PieceType::Bishop => Some((F_HAND_BISHOP, E_HAND_BISHOP, 2)),
        PieceType::Rook => Some((F_HAND_ROOK, E_HAND_ROOK, 2)),
        _ => None,
    }
}

/// The square as seen from `perspective`: unchanged for Black, rotated for
/// White.
pub open spec fn spec_sq_from(sq: Square, perspective: Color) -> int {
    if perspective == Color::Black {
        sq.0 as int
    } else {
        80 - sq.0
    }
}

impl BonaPiece {
    pub open spec fn spec_zero() -> BonaPiece {
        BonaPiece(0)
    }

    pub fn zero() -> (r: BonaPiece)
        ensures
            r == Self::spec_zero(),
    {
        BonaPiece(0)
    }

    pub fn value(self) -> (r: u16)
        ensures
            r == self.0,
    {
        self.0
    }

    /// BonaPiece of `piece` on `sq` seen from `perspective`: the friend plane
    /// when the piece belongs to `perspective`, the enemy plane otherwise,
    /// offset by the perspective square. Kings and empty squares give zero.
    pub open spec fn spec_from_piece_square(piece: Piece, sq: Square, perspective: Color) -> BonaPiece {
        match spec_board_bases(piece.piece_type) {
            Some((fb, eb)) => {
                let base = if piece.color == perspective { fb } else { eb };
                BonaPiece((base + spec_sq_from(sq, perspective)) as u16)
            },
            None => BonaPiece(0),
        }
    }

    pub fn from_piece_square(piece: Piece, sq: Square, perspective: Color) -> (r: BonaPiece)
        requires
            sq.spec_valid(),
        ensures
            r == Self::spec_from_piece_square(piece, sq, perspective),
            r.0 < FE_OLD_END,
            r.0 == 0 || r.0 >= FE_HAND_END,
            r.0 == 0 <==> spec_board_bases(piece.piece_type) is None,
    {
        match board_bases(piece.piece_type) {
            Some((fb, eb)) => {
                let base = if piece.color == perspective { fb } else { eb };
                let s: u16 = if perspective == Color::Black { sq.0 as u16 } else { 80 - sq.0 as u16 };
                BonaPiece(base + s)
            },
            None => BonaPiece(0),
        }
    }

    /// BonaPiece of the `count`-th piece of kind `pt` held by `owner`, seen
    /// from `perspective` (counts start at 1). Kinds never held, count 0 and
    /// counts beyond the number of such pieces in a game give zero.
    pub open spec fn spec_from_hand_piece(perspective: Color, owner: Color, pt: PieceType, count: u8) -> BonaPiece {
        match spec_hand_bases(pt) {
            Some((fb, eb, max)) => {
                if count == 0 || count > max {
                    BonaPiece(0)
                } else {
                    let base = if owner == perspective { fb } else { eb };
                    BonaPiece((base + count - 1) as u16)
                }
            },
            None => BonaPiece(0),
        }
    }

    pub fn from_hand_piece(perspective: Color, owner: Color, pt: PieceType, count: u8) -> (r: BonaPiece)
        ensures
            r == Self::spec_from_hand_piece(perspective, owner, pt, count),
            r.0 < FE_HAND_END,
    {
        match hand_bases(pt) {
            Some((fb, eb, max)) => {
                if count == 0 || count > max {
                    BonaPiece(0)
                } else {
                    let base = if owner == perspective { fb } else { eb };
                    BonaPiece(base + count as u16 - 1)
                }
            },
            None => BonaPiece(0),
        }
    }
}

} // verus!
