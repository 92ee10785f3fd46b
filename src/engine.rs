use vstd::prelude::*;
use crate::codec::{Move, valid_notation, move_of_notation, no_dups};
use crate::material::{within_piece_set, is_board_start};

verus! {

/// The canonical board string (placement and side to move) that chessai
/// reads from a board description, or `None` where it refuses it.
pub uninterp spec fn board_of(fen: Seq<char>) -> Option<Seq<char>>;

/// The legal moves that chessai generates for a board description, in its
/// generation order (empty where the description does not parse).
pub uninterp spec fn legal_of(fen: Seq<char>) -> Seq<Move>;

/// Whether the side to move stands in check (false where the description
/// does not parse).
pub uninterp spec fn in_check_of(fen: Seq<char>) -> bool;

/// The canonical board string after chessai plays a move, or `None` where
/// it refuses the move (or the description).
pub uninterp spec fn play_of(fen: Seq<char>, m: Move) -> Option<Seq<char>>;

/// The chosen move and score of a single-threaded, book-less chessai search
/// to a fixed depth on a fresh engine.
pub uninterp spec fn search_of(fen: Seq<char>, depth: nat) -> (Option<Move>, int);

/// Relies on chessai::Position::from_fen and Position::to_fen: parse a board
/// description and write it back in canonical form (ten ranks of at most
/// nine characters, nine separators, a space and the side to move). The
/// first rank is written first, opening with a digit or a piece letter, and
/// a canonical string reads back as itself.
#[verifier::external_body]
pub(crate) fn canonical_board(fen: &str) -> (r: Option<String>)
    requires
        fen@.len() <= 128,
    ensures
        r matches Some(s) ==> {
            &&& board_of(fen@) == Some(s@)
            &&& board_of(s@) == Some(s@)
            &&& s@.len() <= 101
            &&& s@.len() > 0
            &&& is_board_start(s@[0])
        },
        r is None ==> board_of(fen@) is None,
{
    chessai::Position::from_fen(fen).ok().map(|p| p.to_fen())
}

/// Relies on chessai::Engine::legal_moves (after Engine::set_fen on a fresh
/// engine): the pseudo-legal moves of the position that do not leave the
/// mover's king attacked, each between two cells of the board. The move
/// generator visits each piece once and each of its targets once, so no
/// move repeats. The engine's
/// move list holds 128 moves, which the standard piece set never exceeds.
#[verifier::external_body]
pub(crate) fn legal_moves_at(fen: &str) -> (r: Vec<Move>)
    requires
        fen@.len() <= 128,
        within_piece_set(fen@),
    ensures
        r@ == legal_of(fen@),
        forall|i: int| 0 <= i < r@.len() ==> (#[trigger] r@[i]).wf(),
        no_dups(r@),
{
    let mut e = chessai::Engine::builder().use_book(false).hash_size(1).threads(1).build();
    if e.set_fen(fen).is_err() {
        return Vec::new();
    }
    e.legal_moves().iter().map(|m| Move {
        src_row: m.src().rank() as usize,
        src_col: m.src().file() as usize,
        dst_row: m.dst().rank() as usize,
        dst_col: m.dst().file() as usize,
    }).collect()
}

/// Whether a cell holds a piece (false where the description does not parse).
pub uninterp spec fn occupied_of(fen: Seq<char>, row: int, col: int) -> bool;

/// Relies on chessai::Square::from_rank_file and Position::piece_at.
#[verifier::external_body]
pub(crate) fn occupied_at(fen: &str, row: usize, col: usize) -> (r: bool)
    requires
        fen@.len() <= 128,
        row < 10,
        col < 9,
    ensures
        r == occupied_of(fen@, row as int, col as int),
{
    match (chessai::Position::from_fen(fen), chessai::Square::from_rank_file(row as u8, col as u8)) {
        (Ok(p), Some(sq)) => p.piece_at(sq).is_some(),
        _ => false,
    }
}

/// Relies on chessai::Position::is_in_check, asked for the side to move.
#[verifier::external_body]
pub(crate) fn in_check_at(fen: &str) -> (r: bool)
    requires
        fen@.len() <= 128,
    ensures
        r == in_check_of(fen@),
{
    match chessai::Position::from_fen(fen) {
        Ok(p) => p.is_in_check(p.side_to_move()),
        Err(_) => false,
    }
}

/// Relies on chessai::Move::from_iccs and chessai::Engine::make_move (after
/// Engine::set_fen on a fresh engine): it plays a move only if it is
/// legal in the position: a pseudo-legal move that leaves the mover's king
/// unattacked, the same filter as Engine::legal_moves. Engine::fen then gives
/// the new board in the canonical form of Position::to_fen, which a move
/// cannot give more pieces of any kind.
#[verifier::external_body]
pub(crate) fn play_at(fen: &str, iccs: &str) -> (r: Option<String>)
    requires
        fen@.len() <= 128,
        within_piece_set(fen@),
        valid_notation(iccs@),
    ensures
        r is Some <==> legal_of(fen@).contains(move_of_notation(iccs@)),
        r matches Some(s) ==> {
            &&& play_of(fen@, move_of_notation(iccs@)) == Some(s@)
            &&& board_of(s@) == Some(s@)
            &&& s@.len() <= 101
            &&& within_piece_set(s@)
        },
        r is None ==> play_of(fen@, move_of_notation(iccs@)) is None,
{
    let mut e = chessai::Engine::builder().use_book(false).hash_size(1).threads(1).build();
    let mv = chessai::Move::from_iccs(iccs).ok()?;
    e.set_fen(fen).ok()?;
    if e.make_move(mv) { Some(e.fen()) } else { None }
}

/// Relies on chessai::Engine::search (after Engine::set_fen on a fresh
/// engine) with a depth limit only, one thread,
/// no opening book and a fresh table: its result depends on the position
/// and the depth alone.
#[verifier::external_body]
pub(crate) fn search_at(fen: &str, depth: u8) -> (r: (Option<Move>, i32))
    requires
        fen@.len() <= 128,
        within_piece_set(fen@),
    ensures
        (r.0, r.1 as int) == search_of(fen@, depth as nat),
        r.0 matches Some(m) ==> m.wf(),
{
    let mut e = chessai::Engine::builder().use_book(false).hash_size(1).threads(1).build();
    if e.set_fen(fen).is_err() {
        return (None, 0);
    }
    let info = e.search(chessai::Limits::new().depth(depth));
    let mv = info.best_move.map(|m| Move {
        src_row: m.src().rank() as usize,
        src_col: m.src().file() as usize,
        dst_row: m.dst().rank() as usize,
        dst_col: m.dst().file() as usize,
    });
    (mv, info.score)
}

} // verus!
