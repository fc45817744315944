use vstd::prelude::*;

verus! {

/// Side of a piece or side to move.
#[derive(Clone, Copy, Debug, PartialEq, Eq, Structural)]
pub enum Color {
    Black,
    White,
}

impl Color {
    pub open spec fn spec_opponent(self) -> Color {
        match self {
            Color::Black => Color::White,
            Color::White => Color::Black,
        }
    }

    /// The other side.
    pub fn opponent(self) -> (r: Color)
        ensures
            r == self.spec_opponent(),
    {
        match self {
            Color::Black => Color::White,
            Color::White => Color::Black,
        }
    }

    pub open spec fn spec_index(self) -> usize {
        match self {
            Color::Black => 0,
            Color::White => 1,
        }
    }

    /// `0` for Black, `1` for White.
    pub fn index(self) -> (r: usize)
        ensures
            r == self.spec_index(),
    {
        match self {
            Color::Black => 0,
            Color::White => 1,
        }
    }
}


/// Kind of a shogi piece, promoted kinds included.
#[derive(Clone, Copy, Debug, PartialEq, Eq, Structural)]
pub enum PieceType {
    NoPiece,
    Pawn,
    Lance,
    Knight,
    Silver,
    Bishop,
    Rook,
    Gold,
    King,
    ProPawn,
    ProLance,
    ProKnight,
    ProSilver,
    Horse,
    Dragon,
}

impl PieceType {
    pub open spec fn spec_promote(self) -> PieceType {
        match self {
            PieceType::Pawn => PieceType::ProPawn,
            PieceType::Lance => PieceType::ProLance,
            PieceType::Knight => PieceType::ProKnight,
            PieceType::Silver => PieceType::ProSilver,
            PieceType::Bishop => PieceType::Horse,
            PieceType::Rook => PieceType::Dragon,
            _ => self,
        }
    }

    /// The promoted kind; kinds that cannot promote are returned unchanged.
    pub fn promote(self) -> (r: PieceType)
        ensures
            r == self.spec_promote(),
    {
        match self {
            PieceType::Pawn => PieceType::ProPawn,
            PieceType::Lance => PieceType::ProLance,
            PieceType::Knight => PieceType::ProKnight,
            PieceType::Silver => PieceType::ProSilver,
            PieceType::Bishop => PieceType::Horse,
            PieceType::Rook => PieceType::Dragon,
            _ => self,
        }
    }

    pub open spec fn spec_unpromote(self) -> PieceType {
        match self {
            PieceType::ProPawn => PieceType::Pawn,
            PieceType::ProLance => PieceType::Lance,
            PieceType::ProKnight => PieceType::Knight,
            PieceType::ProSilver => PieceType::Silver,
            PieceType::Horse => PieceType::Bishop,
            PieceType::Dragon => PieceType::Rook,
            _ => self,
        }
    }

    /// The unpromoted kind; unpromoted kinds are returned unchanged.
    pub fn unpromote(self) -> (r: PieceType)
        ensures
            r == self.spec_unpromote(),
    {
        match self {
            PieceType::ProPawn => PieceType::Pawn,
            PieceType::ProLance => PieceType::Lance,
            PieceType::ProKnight => PieceType::Knight,
            PieceType::ProSilver => PieceType::Silver,
            PieceType::Horse => PieceType::Bishop,
            PieceType::Dragon => PieceType::Rook,
            _ => self,
        }
    }

    pub open spec fn spec_is_promoted(self) -> bool {
        match self {
            PieceType::ProPawn | PieceType::ProLance | PieceType::ProKnight | PieceType::ProSilver
            | PieceType::Horse | PieceType::Dragon => true,
            _ => false,
        }
    }

    /// Whether this is a promoted kind.
    pub fn is_promoted(self) -> (r: bool)
        ensures
            r == self.spec_is_promoted(),
    {
        match self {
            PieceType::ProPawn | PieceType::ProLance | PieceType::ProKnight | PieceType::ProSilver
            | PieceType::Horse | PieceType::Dragon => true,
            _ => false,
        }
    }

    /// Index of a kind that can be held in hand (pawn, lance, knight, silver,
    /// gold, bishop, rook), or `None` for any other kind.
    pub open spec fn spec_hand_index(self) -> Option<usize> {
        match self {
            PieceType::Pawn => Some(0usize),
            PieceType::Lance => Some(1usize),
            PieceType::Knight => Some(2usize),
            PieceType::Silver => Some(3usize),
            PieceType::Gold => Some(4usize),
            PieceType::Bishop => Some(5usize),
            PieceType::Rook => Some(6usize),
            _ => None,
        }
    }

    /// Slot of this kind in a [`Hand`], if it can be held in hand.
    pub fn hand_index(self) -> (r: Option<usize>)
        ensures
            r == self.spec_hand_index(),
    {
        match self {
            PieceType::Pawn => Some(0),
            PieceType::Lance => Some(1),
            PieceType::Knight => Some(2),
            PieceType::Silver => Some(3),
            PieceType::Gold => Some(4),
            PieceType::Bishop => Some(5),
            PieceType::Rook => Some(6),
            _ => None,
        }
    }
}

/// Kind of the `i`-th hand slot: pawn, lance, knight, silver, gold, bishop, rook.
pub open spec fn spec_hand_piece_type(i: int) -> PieceType {
    if i == 0 {
        PieceType::Pawn
    } else if i == 1 {
        PieceType::Lance
    } else if i == 2 {
        PieceType::Knight
    } else if i == 3 {
        PieceType::Silver
    } else if i == 4 {
        PieceType::Gold
    } else if i == 5 {
        PieceType::Bishop
    } else {
        PieceType::Rook
    }
}

/// Kind of the `i`-th hand slot (`i < 7`).
pub fn hand_piece_type(i: usize) -> (r: PieceType)
    requires
        i < 7,
    ensures
        r == spec_hand_piece_type(i as int),
{
    if i == 0 {
        PieceType::Pawn
    } else if i == 1 {
        PieceType::Lance
    } else if i == 2 {
        PieceType::Knight
    } else if i == 3 {
        PieceType::Silver
    } else if i == 4 {
        PieceType::Gold
    } else if i == 5 {
        PieceType::Bishop
    } else {
        PieceType::Rook
    }
}

/// Number of piece kinds that can stand on the board besides the king.
pub const NUM_BOARD_PIECE_TYPES: usize = 13;

/// The `i`-th non-king board kind, in the enumeration order used by the
/// feature mappers.
pub open spec fn spec_board_piece_type(i: int) -> PieceType {
    if i == 0 {
        PieceType::Pawn
    } else if i == 1 {
        PieceType::Lance
    } else if i == 2 {
        PieceType::Knight
    } else if i == 3 {
        PieceType::Silver
    } else if i == 4 {
        PieceType::Gold
    } else if i == 5 {
        PieceType::Bishop
    } else if i == 6 {
        PieceType::Rook
    } else if i == 7 {
        PieceType::ProPawn
    } else if i == 8 {
        PieceType::ProLance
    } else if i == 9 {
        PieceType::ProKnight
    } else if i == 10 {
        PieceType::ProSilver
    } else if i == 11 {
        PieceType::Horse
    } else {
        PieceType::Dragon
    }
}

/// The `i`-th non-king board kind (`i < 13`).
pub fn board_piece_type(i: usize) -> (r: PieceType)
    requires
        i < NUM_BOARD_PIECE_TYPES,
    ensures
        r == spec_board_piece_type(i as int),
{
    if i == 0 {
        PieceType::Pawn
    } else if i == 1 {
        PieceType::Lance
    } else if i == 2 {
        PieceType::Knight
    } else if i == 3 {
        PieceType::Silver
    } else if i == 4 {
        PieceType::Gold
    } else if i == 5 {
        PieceType::Bishop
    } else if i == 6 {
        PieceType::Rook
    } else if i == 7 {
        PieceType::ProPawn
    } else if i == 8 {
        PieceType::ProLance
    } else if i == 9 {
        PieceType::ProKnight
    } else if i == 10 {
        PieceType::ProSilver
    } else if i == 11 {
        PieceType::Horse
    } else {
        PieceType::Dragon
    }
}

/// Content of an empty square.
pub open spec fn spec_no_piece() -> Piece {
    Piece { piece_type: PieceType::NoPiece, color: Color::Black }
}

/// A piece: its kind and its owner. An empty square holds [`Piece::none`].
#[derive(Clone, Copy, Debug, PartialEq, Eq, Structural)]
pub struct Piece {
    pub piece_type: PieceType,
    pub color: Color,
}

impl Piece {
    /// The empty square.
    pub fn none() -> (r: Piece)
        ensures
            r == spec_no_piece(),
    {
        Piece { piece_type: PieceType::NoPiece, color: Color::Black }
    }

    pub fn new(color: Color, piece_type: PieceType) -> (r: Piece)
        ensures
            r == (Piece { piece_type, color }),
    {
        Piece { piece_type, color }
    }

    /// Whether the square is empty.
    pub fn is_none(&self) -> (r: bool)
        ensures
            r == (self.piece_type == PieceType::NoPiece),
    {
        self.piece_type == PieceType::NoPiece
    }

    /// Whether a piece stands on the square.
    pub fn is_some(&self) -> (r: bool)
        ensures
            r == (self.piece_type != PieceType::NoPiece),
    {
        self.piece_type != PieceType::NoPiece
    }
}

/// A square as `file * 9 + rank` (file 0 is the 1-file, rank 0 the first
/// rank from Black's side); `81` and above denote "no square".
#[derive(Clone, Copy, Debug, PartialEq, Eq, Structural)]
pub struct Square(pub u8);

impl Square {
    /// "No square", used for a missing king.
    pub fn none() -> (r: Square)
        ensures
            r.0 == 81,
    {
        Square(81)
    }

    pub fn new(file: u8, rank: u8) -> (r: Square)
        requires
            file * 9 + rank <= 255,
        ensures
            r.0 == file * 9 + rank,
    {
        Square(file * 9 + rank)
    }

    pub fn from_index(idx: usize) -> (r: Square)
        requires
            idx <= 255,
        ensures
            r.0 == idx,
    {
        Square(idx as u8)
    }

    pub open spec fn spec_valid(self) -> bool {
        self.0 < 81
    }

    /// Whether this is one of the 81 board squares.
    pub fn is_valid(self) -> (r: bool)
        ensures
            r == self.spec_valid(),
    {
        self.0 < 81
    }

    pub fn index(self) -> (r: usize)
        ensures
            r == self.0,
    {
        self.0 as usize
    }

    pub open spec fn spec_file(self) -> u8 {
        self.0 / 9
    }

    pub open spec fn spec_rank(self) -> u8 {
        self.0 % 9
    }

    pub fn file(self) -> (r: u8)
        ensures
            r == self.spec_file(),
    {
        self.0 / 9
    }

    pub fn rank(self) -> (r: u8)
        ensures
            r == self.spec_rank(),
    {
        self.0 % 9
    }

    pub open spec fn spec_inverse(self) -> Square {
        Square((80 - self.0) as u8)
    }

    /// The square seen from the other side (180 degree rotation).
    pub fn inverse(self) -> (r: Square)
        requires
            self.spec_valid(),
        ensures
            r == self.spec_inverse(),
    {
        Square(80 - self.0)
    }

    pub open spec fn spec_mirror_file(self) -> Square {
        Square(((8 - self.spec_file()) * 9 + self.spec_rank()) as u8)
    }

    /// The square reflected left to right.
    pub fn mirror_file(self) -> (r: Square)
        requires
            self.spec_valid(),
        ensures
            r == self.spec_mirror_file(),
    {
        Square((8 - self.0 / 9) * 9 + self.0 % 9)
    }
}

/// Pieces in hand: one count per hand slot (see [`spec_hand_piece_type`]).
#[derive(Clone, Copy, Debug, PartialEq, Eq)]
pub struct Hand {
    pub counts: [u8; 7],
}

impl Hand {
    /// No piece in hand.
    pub fn empty() -> (r: Hand)
        ensures
            forall|i: int| 0 <= i < 7 ==> r.counts@[i] == 0,
    {
        Hand { counts: [0u8; 7] }
    }

    pub open spec fn spec_count(self, pt: PieceType) -> u8 {
        match pt.spec_hand_index() {
            Some(i) => self.counts@[i as int],
            None => 0,
        }
    }

    /// Number of pieces of kind `pt` in hand (`0` for kinds never held).
    pub fn count(&self, pt: PieceType) -> (r: u8)
        ensures
            r == self.spec_count(pt),
    {
        match pt.hand_index() {
            Some(i) => self.counts[i],
            None => 0,
        }
    }

    /// Number of pawns in hand.
    pub fn pawn(&self) -> (r: u8)
        ensures
            r == self.counts@[0],
    {
        self.counts[0]
    }

    /// Number of lances in hand.
    pub fn lance(&self) -> (r: u8)
        ensures
            r == self.counts@[1],
    {
        self.counts[1]
    }

    /// Number of knights in hand.
    pub fn knight(&self) -> (r: u8)
        ensures
            r == self.counts@[2],
    {
        self.counts[2]
    }

    /// Number of silvers in hand.
    pub fn silver(&self) -> (r: u8)
        ensures
            r == self.counts@[3],
    {
        self.counts[3]
    }

    /// Number of golds in hand.
    pub fn gold(&self) -> (r: u8)
        ensures
            r == self.counts@[4],
    {
        self.counts[4]
    }

    /// Number of bishops in hand.
    pub fn bishop(&self) -> (r: u8)
        ensures
            r == self.counts@[5],
    {
        self.counts[5]
    }

    /// Number of rooks in hand.
    pub fn rook(&self) -> (r: u8)
        ensures
            r == self.counts@[6],
    {
        self.counts[6]
    }

    /// Sets the number of pawns in hand.
    pub fn set_pawn(&mut self, n: u8)
        ensures
            final(self).counts@ == old(self).counts@.update(0, n),
    {
        self.counts[0] = n;
    }

    /// Sets the number of lances in hand.
    pub fn set_lance(&mut self, n: u8)
        ensures
            final(self).counts@ == old(self).counts@.update(1, n),
    {
        self.counts[1] = n;
    }

    /// Sets the number of knights in hand.
    pub fn set_knight(&mut self, n: u8)
        ensures
            final(self).counts@ == old(self).counts@.update(2, n),
    {
        self.counts[2] = n;
    }

    /// Sets the number of silvers in hand.
    pub fn set_silver(&mut self, n: u8)
        ensures
            final(self).counts@ == old(self).counts@.update(3, n),
    {
        self.counts[3] = n;
    }

    /// Sets the number of golds in hand.
    pub fn set_gold(&mut self, n: u8)
        ensures
            final(self).counts@ == old(self).counts@.update(4, n),
    {
        self.counts[4] = n;
    }

    /// Sets the number of bishops in hand.
    pub fn set_bishop(&mut self, n: u8)
        ensures
            final(self).counts@ == old(self).counts@.update(5, n),
    {
        self.counts[5] = n;
    }

    /// Sets the number of rooks in hand.
    pub fn set_rook(&mut self, n: u8)
        ensures
            final(self).counts@ == old(self).counts@.update(6, n),
    {
        self.counts[6] = n;
    }

    /// Sets the count of kind `pt`; kinds never held are ignored.
    pub fn set(&mut self, pt: PieceType, n: u8)
        ensures
            forall|i: int|
                0 <= i < 7 ==> final(self).counts@[i] == if pt.spec_hand_index() == Some(i as usize) {
                    n
                } else {
                    old(self).counts@[i]
                },
    {
        match pt.hand_index() {
            Some(i) => {
                self.counts[i] = n;
            },
            None => {},
        }
    }

    /// Adds `n` pieces of kind `pt`, saturating at 255; kinds never held are
    /// ignored.
    pub fn add(&mut self, pt: PieceType, n: u8)
        ensures
            forall|i: int|
                0 <= i < 7 ==> final(self).counts@[i] == if pt.spec_hand_index() == Some(i as usize) {
                    if old(self).counts@[i] + n > 255 {
                        255u8
                    } else {
                        (old(self).counts@[i] + n) as u8
                    }
                } else {
                    old(self).counts@[i]
                },
    {
        match pt.hand_index() {
            Some(i) => {
                self.counts[i] = self.counts[i].saturating_add(n);
            },
            None => {},
        }
    }
}

} // verus!
