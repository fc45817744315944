//! HCPE3 games: a 36-byte header (a 32-byte Huffman-coded start position,
//! the number of moves as `u16`, a result byte whose low two bits are the
//! winner, a game-information byte), then per move a 6-byte record (the
//! played move, its evaluation, the number of candidates) followed by 4
//! bytes per candidate. Each ply becomes a training record; the candidates
//! are skipped.

use vstd::prelude::*;
use crate::loader::pack::{MiniPosition, MiniPositionView, spec_do_move, spec_from_hcp, spec_is_record_of, spec_move_replayable};
use crate::loader::{DataLoader, owned_paths};
use crate::loader::hcpe::spec_hcpe_buffer_size;
use crate::shogi::packed_sfen::{PackedSfenValue, le_u16, spec_le_u16, spec_u16_as_i16, u16_as_i16};

verus! {

/// Bytes of a game header.
pub const HEADER_SIZE: usize = 36;

/// Bytes of a move record.
pub const MOVE_INFO_SIZE: usize = 6;

/// Bytes of one candidate of a move record.
pub const MOVE_VISITS_SIZE: usize = 4;

/// How reading move records ended: all read, cut short inside a move
/// record (the file ends there), or cut short inside the candidates (the
/// file is broken).
#[derive(Clone, Copy, Debug, PartialEq, Eq, Structural)]
pub enum MovesEnd {
    Complete,
    Cut,
    Broken,
}

/// Reading `k` move records from byte `p` of `d`: how it ended, the
/// (move, evaluation) pairs read and the offset after them (the end of
/// `d` when cut short).
pub open spec fn spec_read_moves(d: Seq<u8>, p: int, k: nat) -> (MovesEnd, Seq<(u16, i16)>, int)
    decreases k,
{
    if k == 0 {
        (MovesEnd::Complete, Seq::empty(), p)
    } else if p + 6 > d.len() {
        (MovesEnd::Cut, Seq::empty(), d.len() as int)
    } else {
        let m = spec_le_u16(d[p], d[p + 1]);
        let ev = spec_u16_as_i16(spec_le_u16(d[p + 2], d[p + 3]));
        let q = p + 6 + 4 * spec_le_u16(d[p + 4], d[p + 5]);
        if q > d.len() {
            (MovesEnd::Broken, seq![(m, ev)], d.len() as int)
        } else {
            let rest = spec_read_moves(d, q, (k - 1) as nat);
            (rest.0, seq![(m, ev)] + rest.1, rest.2)
        }
    }
}

/// At most `k` move records are read.
proof fn lemma_read_moves_len(d: Seq<u8>, p: int, k: nat)
    ensures
        spec_read_moves(d, p, k).1.len() <= k,
    decreases k,
{
    if k > 0 && p + 6 <= d.len() {
        let q = p + 6 + 4 * spec_le_u16(d[p + 4], d[p + 5]);
        if q <= d.len() {
            lemma_read_moves_len(d, q, (k - 1) as nat);
        }
    }
}

/// A game of an HCPE3 file as read: its start position record, its move
/// count, the winner bits of its result and the (move, evaluation) pairs
/// read (fewer than the count when the file is cut short).
#[derive(Clone, Debug)]
pub struct Hcpe3Game {
    pub hcp: [u8; 32],
    pub move_num: u16,
    pub result_bits: u8,
    pub moves: Vec<(u16, i16)>,
}

/// What reading a game at an offset gave.
#[derive(Clone, Debug)]
pub enum Hcpe3Read {
    /// Fewer than a header's bytes are left: the file ends.
    End,
    /// A game and the offset after it.
    Game(Hcpe3Game, usize),
    /// The candidates of a move run past the end: the file is broken.
    Broken,
}

/// Reads the game at byte `at` of `data`: `End` when no whole header is
/// left; else the header's fields and the move records read by
/// [`spec_read_moves`], `Broken` when they end inside the candidates.
pub fn read_hcpe3_game(data: &[u8], at: usize) -> (r: Hcpe3Read)
    ensures
        at + 36 > data@.len() ==> r is End,
        at + 36 <= data@.len() ==> {
            let d = data@;
            let rm = spec_read_moves(d, at + 36, spec_le_u16(d[at + 32], d[at + 33]) as nat);
            match r {
                Hcpe3Read::End => false,
                Hcpe3Read::Broken => rm.0 == MovesEnd::Broken,
                Hcpe3Read::Game(g, next) => {
                    &&& rm.0 != MovesEnd::Broken
                    &&& g.hcp@ == d.subrange(at as int, at + 32)
                    &&& g.move_num == spec_le_u16(d[at + 32], d[at + 33])
                    &&& g.result_bits == d[at + 34] & 3
                    &&& g.moves@ == rm.1
                    &&& g.moves@.len() <= g.move_num
                    &&& next == rm.2
                },
            }
        },
{
    let len = data.len();
    if at > len || len - at < HEADER_SIZE {
        return Hcpe3Read::End;
    }
    let ghost d = data@;
    proof {
        lemma_read_moves_len(d, at + 36, spec_le_u16(d[at + 32], d[at + 33]) as nat);
    }
    let mut hcp = [0u8; 32];
    let mut i: usize = 0;
    while i < 32
        invariant
            i <= 32,
            data.len() == data@.len(),
            at + 36 <= data@.len(),
            forall|k: int| 0 <= k < i ==> hcp@[k] == data@[at + k],
        decreases 32 - i,
    {
        hcp[i] = data[at + i];
        i = i + 1;
    }
    assert(hcp@ =~= d.subrange(at as int, at + 32));
    let move_num = le_u16(data[at + 32], data[at + 33]);
    let result_bits = data[at + 34] & 3u8;
    let mut moves: Vec<(u16, i16)> = Vec::new();
    let mut p: usize = at + HEADER_SIZE;
    let mut k: u16 = 0;
    let ghost total = move_num as nat;
    while k < move_num
        invariant
            d == data@,
            data.len() == data@.len(),
            len == data@.len(),
            at + 36 <= data@.len(),
            hcp@ == d.subrange(at as int, at + 32),
            move_num == spec_le_u16(d[at + 32], d[at + 33]),
            result_bits == d[at + 34] & 3,
            k <= move_num,
            moves@.len() == k,
            p <= data@.len(),
            total == move_num as nat,
            ({
                let whole = spec_read_moves(d, at + 36, total);
                let rest = spec_read_moves(d, p as int, (total - k) as nat);
                &&& whole.0 == rest.0
                &&& whole.1 == moves@ + rest.1
                &&& whole.2 == rest.2
            }),
        decreases move_num - k,
    {
        let rest_len = len - p;
        if rest_len < MOVE_INFO_SIZE {
            assert(moves@ + Seq::<(u16, i16)>::empty() =~= moves@);
            return Hcpe3Read::Game(Hcpe3Game { hcp, move_num, result_bits, moves }, len);
        }
        let m = le_u16(data[p], data[p + 1]);
        let ev = u16_as_i16(le_u16(data[p + 2], data[p + 3]));
        let cand = le_u16(data[p + 4], data[p + 5]) as usize;
        let ghost before = moves@;
        if cand * MOVE_VISITS_SIZE > rest_len - MOVE_INFO_SIZE {
            return Hcpe3Read::Broken;
        }
        moves.push((m, ev));
        proof {
            let rest = spec_read_moves(d, (p + 6 + 4 * cand) as int, (total - k - 1) as nat);
            assert(before + (seq![(m, ev)] + rest.1) =~= moves@ + rest.1);
        }
        p = p + MOVE_INFO_SIZE + cand * MOVE_VISITS_SIZE;
        k = k + 1;
    }
    assert(moves@ + Seq::<(u16, i16)>::empty() =~= moves@);
    Hcpe3Read::Game(Hcpe3Game { hcp, move_num, result_bits, moves }, p)
}

/// Position before ply `k` of a game of `move_num` moves started at `p`:
/// each earlier ply's move is played, except that the last ply of the game
/// is never played.
pub open spec fn spec_hcpe3_replay(p: MiniPositionView, moves: Seq<(u16, i16)>, move_num: int, k: int) -> MiniPositionView
    decreases k,
{
    if k <= 0 {
        p
    } else {
        let q = spec_hcpe3_replay(p, moves, move_num, k - 1);
        if k < move_num {
            spec_do_move(q, moves[k - 1].0)
        } else {
            q
        }
    }
}

/// The moves that a game plays can be replayed: every move but the game's
/// last has a square or a hand piece to come from.
pub open spec fn spec_hcpe3_replayable(moves: Seq<(u16, i16)>, move_num: int) -> bool {
    forall|k: int| 0 <= k < moves.len() && k + 1 < move_num ==> spec_move_replayable(#[trigger] moves[k].0)
}

/// Whether the moves of `game` can be replayed (see
/// [`spec_hcpe3_replayable`]).
pub fn hcpe3_game_replayable(game: &Hcpe3Game) -> (r: bool)
    ensures
        r == spec_hcpe3_replayable(game.moves@, game.move_num as int),
{
    let mut i: usize = 0;
    while i < game.moves.len()
        invariant
            i <= game.moves@.len(),
            forall|k: int| 0 <= k < i && k + 1 < game.move_num ==> spec_move_replayable(#[trigger] game.moves@[k].0),
        decreases game.moves@.len() - i,
    {
        let (m, _) = game.moves[i];
        if i + 1 < game.move_num as usize {
            let from = (m >> 7u16) & 0x7Fu16;
            let to = m & 0x7Fu16;
            if !(from >= 88 || to < 81) {
                assert(!spec_move_replayable(game.moves@[i as int].0));
                return false;
            }
            assert(spec_move_replayable(game.moves@[i as int].0));
        }
        i = i + 1;
    }
    true
}

/// Game plies never move the ply counter past the number of moves played.
proof fn lemma_hcpe3_ply_bound(p: MiniPositionView, moves: Seq<(u16, i16)>, move_num: int, k: int)
    requires
        p.game_ply == 0,
        0 <= k,
    ensures
        spec_hcpe3_replay(p, moves, move_num, k).game_ply <= k,
    decreases k,
{
    if k > 0 {
        lemma_hcpe3_ply_bound(p, moves, move_num, k - 1);
        reveal(spec_do_move);
    }
}

/// The training records of `game`: none when its start position does not
/// decode; else one per move read, the position before that ply (game ply
/// counted from 0) with the move's evaluation as score, the move, and the
/// winner bits as result.
pub fn expand_hcpe3_game(game: &Hcpe3Game) -> (r: Vec<PackedSfenValue>)
    requires
        spec_hcpe3_replayable(game.moves@, game.move_num as int),
        game.moves@.len() <= game.move_num,
    ensures
        match spec_from_hcp(game.hcp@, 0) {
            None => r@.len() == 0,
            Some(start) => {
                &&& r@.len() == game.moves@.len()
                &&& forall|k: int|
                    0 <= k < r@.len() ==> spec_is_record_of(
                        #[trigger] r@[k].data@,
                        spec_hcpe3_replay(start, game.moves@, game.move_num as int, k),
                        game.moves@[k].1,
                        game.moves@[k].0,
                        game.result_bits as i8,
                    )
            },
        },
{
    let mut out: Vec<PackedSfenValue> = Vec::new();
    let mut pos = match MiniPosition::from_hcp(&game.hcp, 0) {
        Some(p) => p,
        None => {
            return out;
        },
    };
    let ghost start = pos@;
    let result = game.result_bits as i8;
    let mut i: usize = 0;
    while i < game.moves.len()
        invariant
            i <= game.moves@.len(),
            game.moves@.len() <= game.move_num,
            spec_from_hcp(game.hcp@, 0) == Some(start),
            start.game_ply == 0,
            spec_hcpe3_replayable(game.moves@, game.move_num as int),
            result == game.result_bits as i8,
            pos@ == spec_hcpe3_replay(start, game.moves@, game.move_num as int, i as int),
            out@.len() == i,
            forall|k: int|
                0 <= k < i ==> spec_is_record_of(
                    #[trigger] out@[k].data@,
                    spec_hcpe3_replay(start, game.moves@, game.move_num as int, k),
                    game.moves@[k].1,
                    game.moves@[k].0,
                    result,
                ),
        decreases game.moves@.len() - i,
    {
        let (m, ev) = game.moves[i];
        out.push(pos.to_packed_sfen_value(ev, m, result));
        if i + 1 < game.move_num as usize {
            proof {
                lemma_hcpe3_ply_bound(start, game.moves@, game.move_num as int, i as int);
                assert(spec_move_replayable(game.moves@[i as int].0));
            }
            pos.do_move(m);
        }
        i = i + 1;
    }
    out
}

/// Loader of HCPE3 files: the files, the shuffle-buffer size in records and
/// the record filter.
#[derive(Clone)]
pub struct Hcpe3DataLoader<T> {
    pub file_paths: Vec<String>,
    pub buffer_size: usize,
    pub filter: T,
}

impl<T> Hcpe3DataLoader<T> {
    /// Loader of one file.
    pub fn new(path: &str, buffer_size_mb: usize, filter: T) -> (r: Self)
        ensures
            r.file_paths@.len() == 1,
            r.file_paths@[0]@ == path@,
            r.buffer_size == spec_hcpe_buffer_size(buffer_size_mb as int),
            r.filter == filter,
    {
        let paths = [path];
        Self::new_concat_multiple(paths.as_slice(), buffer_size_mb, filter)
    }

    /// Loader of several files read one after the other.
    pub fn new_concat_multiple(paths: &[&str], buffer_size_mb: usize, filter: T) -> (r: Self)
        ensures
            r.file_paths@.len() == paths@.len(),
            forall|i: int| 0 <= i < paths@.len() ==> #[trigger] r.file_paths@[i]@ == paths@[i]@,
            r.buffer_size == spec_hcpe_buffer_size(buffer_size_mb as int),
            r.filter == filter,
    {
        Hcpe3DataLoader {
            file_paths: owned_paths(paths),
            buffer_size: if buffer_size_mb > usize::MAX / 1048576 {
                usize::MAX / 40
            } else {
                buffer_size_mb * 1048576 / 40
            },
            filter,
        }
    }

    /// Games have variable length, so the number of positions is unknown.
    pub fn count_positions(&self) -> (r: Option<u64>)
        ensures
            r is None,
    {
        None
    }
}

impl<T> DataLoader<PackedSfenValue> for Hcpe3DataLoader<T> {
    fn data_file_paths(&self) -> (r: &[String])
        ensures
            r@ == self.file_paths@,
    {
        self.file_paths.as_slice()
    }
}

} // verus!
