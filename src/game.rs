use vstd::prelude::*;
use crate::codec::{Move, encode, decode, valid_notation, move_of_notation, lemma_decode_encode};
use crate::material::{within_piece_set, piece_set_ok, count_from, count_of};
use crate::engine::{legal_of, in_check_of, play_of, search_of, board_of, legal_moves_at,
    in_check_at, play_at, search_at, canonical_board, occupied_of, occupied_at};

verus! {

/// The board string of the opening position, red (white) to move.
pub const START_POS: &'static str = "rnbakabnr/9/1c5c1/p1p1p1p1p/9/9/P1P1P1P1P/1C5C1/9/RNBAKABNR w";

/// Plies without a capture after which the game is drawn.
pub const MAX_QUIET_PLIES: usize = 120;

/// The two sides; white stands for red, which moves first.
#[derive(Clone, Copy, Debug, PartialEq, Eq, Structural)]
pub enum PieceColor {
    White,
    Black,
}

/// Why a game was drawn.
#[derive(Clone, Copy, Debug, PartialEq, Eq, Structural)]
pub enum DrawReason {
    /// The same position with the same side to move occurred three times.
    Repetition,
    /// Too many plies were played without a capture.
    MoveLimit,
}

/// What the terminal detector says of a position.
#[derive(Clone, Copy, Debug, PartialEq, Eq, Structural)]
pub enum Verdict {
    Ongoing,
    Checkmate(PieceColor),
    Draw(DrawReason),
}

/// What a move that was played brought about.
#[derive(Clone, Copy, Debug, PartialEq, Eq, Structural)]
pub enum MoveOutcome {
    Moved,
    Captured,
    Check,
    Checkmate(PieceColor),
    Draw(DrawReason),
}

/// Errors of the game session.
#[derive(Clone, Copy, Debug, PartialEq, Eq, Structural)]
pub enum GameError {
    /// A move or board text is malformed.
    InvalidNotation,
    /// The move is not among the legal moves of the position.
    IllegalMove,
    /// A move was asked of a position where the game is over.
    NoLegalMove,
}

/// Application screens.
#[allow(non_camel_case_types)]
#[derive(Clone, Copy, Debug, PartialEq, Eq, Structural)]
pub enum Status {
    /// Ready, or paused.
    PENDING,
    /// A game is being played.
    RUNNING,
    /// Leaving the application.
    EXIT,
}

pub open spec fn opponent(c: PieceColor) -> PieceColor {
    match c {
        PieceColor::White => PieceColor::Black,
        PieceColor::Black => PieceColor::White,
    }
}

/// The side to move that a canonical board string names in its last character.
pub open spec fn side_of(board: Seq<char>) -> PieceColor {
    if board.len() > 0 && board.last() == 'b' {
        PieceColor::Black
    } else {
        PieceColor::White
    }
}

/// The terminal detector: no legal move loses (Xiangqi counts a stalemated
/// side as mated), then threefold repetition (the position occurred twice
/// before) and the quiet-ply limit draw.
pub open spec fn verdict_of(
    side: PieceColor,
    n_legal: nat,
    earlier: nat,
    quiet_plies: nat,
    max_quiet_plies: nat,
) -> Verdict {
    if n_legal == 0 {
        Verdict::Checkmate(opponent(side))
    } else if earlier >= 2 {
        Verdict::Draw(DrawReason::Repetition)
    } else if quiet_plies >= max_quiet_plies {
        Verdict::Draw(DrawReason::MoveLimit)
    } else {
        Verdict::Ongoing
    }
}

/// The outcome reported for a move, from the verdict on the new position.
pub open spec fn outcome_of(v: Verdict, in_check: bool, captured: bool) -> MoveOutcome {
    match v {
        Verdict::Checkmate(w) => MoveOutcome::Checkmate(w),
        Verdict::Draw(r) => MoveOutcome::Draw(r),
        Verdict::Ongoing => if in_check {
            MoveOutcome::Check
        } else if captured {
            MoveOutcome::Captured
        } else {
            MoveOutcome::Moved
        },
    }
}

/// Classifies a position from the number of its legal moves, how often it
/// occurred earlier in the game, and the plies played since the last capture.
pub fn classify(
    side: PieceColor,
    n_legal: usize,
    earlier: usize,
    quiet_plies: usize,
    max_quiet_plies: usize,
) -> (r: Verdict)
    ensures
        r == verdict_of(
            side,
            n_legal as nat,
            earlier as nat,
            quiet_plies as nat,
            max_quiet_plies as nat,
        ),
{
    if n_legal == 0 {
        match side {
            PieceColor::White => Verdict::Checkmate(PieceColor::Black),
            PieceColor::Black => Verdict::Checkmate(PieceColor::White),
        }
    } else if earlier >= 2 {
        Verdict::Draw(DrawReason::Repetition)
    } else if quiet_plies >= max_quiet_plies {
        Verdict::Draw(DrawReason::MoveLimit)
    } else {
        Verdict::Ongoing
    }
}

/// A position without legal moves is lost by the side to move, whether or
/// not it stands in check.
pub proof fn lemma_no_moves_is_mate(
    side: PieceColor,
    in_check: bool,
    earlier: nat,
    quiet_plies: nat,
    max_quiet_plies: nat,
)
    ensures
        verdict_of(side, 0, earlier, quiet_plies, max_quiet_plies) == Verdict::Checkmate(
            opponent(side),
        ),
        outcome_of(verdict_of(side, 0, earlier, quiet_plies, max_quiet_plies), in_check, false)
            == MoveOutcome::Checkmate(opponent(side)),
{
}

pub open spec fn is_piece_char(c: char) -> bool {
    ('a' <= c <= 'z') || ('A' <= c <= 'Z')
}

/// The number of piece letters in the placement part of a board string
/// (from index `i` up to the first space).
pub open spec fn pieces_from(s: Seq<char>, i: int) -> nat
    decreases s.len() - i,
{
    if i < 0 || i >= s.len() || s[i] == ' ' {
        0
    } else {
        (if is_piece_char(s[i]) {
            1nat
        } else {
            0nat
        }) + pieces_from(s, i + 1)
    }
}

pub open spec fn piece_count_of(s: Seq<char>) -> nat {
    pieces_from(s, 0)
}

/// How many entries of `h` equal `b`.
pub open spec fn occurrences(h: Seq<Seq<char>>, b: Seq<char>) -> nat
    decreases h.len(),
{
    if h.len() == 0 {
        0
    } else {
        occurrences(h.drop_last(), b) + (if h.last() == b {
            1nat
        } else {
            0nat
        })
    }
}

pub open spec fn boards(h: Seq<String>) -> Seq<Seq<char>> {
    h.map_values(|s: String| s@)
}

/// Counts the pieces on a board string.
pub fn piece_count(s: &str) -> (r: usize)
    requires
        s@.len() <= 128,
    ensures
        r as nat == piece_count_of(s@),
{
    let n = s.unicode_len();
    let mut i: usize = 0;
    let mut count: usize = 0;
    while i < n
        invariant
            n == s@.len(),
            n <= 128,
            i <= n,
            count <= i,
            count + pieces_from(s@, i as int) == pieces_from(s@, 0),
        ensures
            count as nat == pieces_from(s@, 0),
        decreases n - i,
    {
        let c = s.get_char(i);
        if c == ' ' {
            break;
        }
        if ('a' <= c && c <= 'z') || ('A' <= c && c <= 'Z') {
            count = count + 1;
        }
        i = i + 1;
    }
    count
}

/// Reads the side to move from the last character of a board string.
pub fn side_to_move(board: &str) -> (r: PieceColor)
    ensures
        r == side_of(board@),
{
    let n = board.unicode_len();
    if n > 0 && board.get_char(n - 1) == 'b' {
        PieceColor::Black
    } else {
        PieceColor::White
    }
}

/// Counts how often `b` occurs in `h`.
pub fn count_occurrences(h: &Vec<String>, b: &String) -> (r: usize)
    ensures
        r as nat == occurrences(boards(h@), b@),
{
    let mut i: usize = 0;
    let mut count: usize = 0;
    while i < h.len()
        invariant
            i <= h@.len(),
            count <= i,
            count as nat == occurrences(boards(h@).take(i as int), b@),
        decreases h@.len() - i,
    {
        proof {
            assert(boards(h@).take(i as int + 1).drop_last() =~= boards(h@).take(i as int));
        }
        if h[i] == *b {
            count = count + 1;
        }
        i = i + 1;
    }
    proof {
        assert(boards(h@).take(i as int) =~= boards(h@));
    }
    count
}

/// Whether a move is in a list of moves.
pub fn contains_move(v: &Vec<Move>, m: &Move) -> (r: bool)
    ensures
        r == v@.contains(*m),
{
    let mut i: usize = 0;
    while i < v.len()
        invariant
            i <= v@.len(),
            forall|j: int| 0 <= j < i ==> v@[j] != *m,
        decreases v@.len() - i,
    {
        if v[i] == *m {
            return true;
        }
        i = i + 1;
    }
    false
}

/// What a click on a cell of the board did.
#[derive(Clone, Copy, Debug, PartialEq, Eq, Structural)]
pub enum Selection {
    /// Nothing was selected and the cell is empty.
    Ignored,
    /// The piece on the cell is now selected.
    Selected,
    /// The selected piece cannot move to the cell; the selection is dropped.
    Rejected,
    /// The selected piece moved to the cell.
    Played(MoveOutcome),
}

/// The screen to switch to when Escape is pressed on `app_state`, if any,
/// remembering a running game so that a second Escape resumes it.
pub fn esc_event_system(app_state: Status, data: &mut Data) -> (r: Option<Status>)
    ensures
        app_state == Status::PENDING ==> *final(data) == *old(data) && r == (if old(
            data,
        ).previous_state is Some {
            Some(Status::RUNNING)
        } else {
            None::<Status>
        }),
        app_state == Status::RUNNING ==> r == Some(Status::PENDING) && *final(data) == (Data {
            previous_state: Some(Status::RUNNING),
            ..*old(data)
        }),
        app_state == Status::EXIT ==> *final(data) == *old(data) && r is None,
        old(data).wf() ==> final(data).wf(),
{
    match app_state {
        Status::PENDING => {
            if data.previous_state.is_some() {
                Some(Status::RUNNING)
            } else {
                None
            }
        },
        Status::RUNNING => {
            data.previous_state = Some(Status::RUNNING);
            Some(Status::PENDING)
        },
        Status::EXIT => None,
    }
}

/// Handles a click on the cell at `row`, `col`: selects a piece when none
/// is selected, otherwise tries to move the selected piece there.
pub fn selection(data: &mut Data, row: usize, col: usize) -> (r: Selection)
    requires
        old(data).wf(),
        row < 10,
        col < 9,
    ensures
        final(data).wf(),
        old(data).current_select is None && !occupied_of(old(data).board@, row as int, col as int)
            ==> r == Selection::Ignored && *final(data) == *old(data),
        old(data).current_select is None && occupied_of(old(data).board@, row as int, col as int)
            ==> r == Selection::Selected && final(data).current_select == Some((row, col))
            && final(data).board == old(data).board && final(data).history == old(data).history,
        old(data).current_select matches Some((sr, sc)) ==> {
            let m = Move { src_row: sr, src_col: sc, dst_row: row, dst_col: col };
            if legal_of(old(data).board@).contains(m) {
                r is Played && old(data).play_result(
                    m,
                    Ok::<MoveOutcome, GameError>(r->Played_0),
                    *final(data),
                )
            } else {
                r == Selection::Rejected && final(data).current_select is None
                    && final(data).board == old(data).board && final(data).history == old(
                    data,
                ).history
            }
        },
{
    match data.current_select {
        None => {
            if occupied_at(data.board.as_str(), row, col) {
                data.current_select = Some((row, col));
                Selection::Selected
            } else {
                Selection::Ignored
            }
        },
        Some((sr, sc)) => {
            let m = Move { src_row: sr, src_col: sc, dst_row: row, dst_col: col };
            let legal = legal_moves_at(data.board.as_str());
            if !contains_move(&legal, &m) {
                data.current_select = None;
                return Selection::Rejected;
            }
            match data.play(&m) {
                Ok(out) => Selection::Played(out),
                Err(_) => Selection::Rejected,
            }
        },
    }
}

/// Asking the engine for a move twice, on games with the same position, the
/// same earlier positions and the same quiet-ply count, to the same depth,
/// gives the same answer: the same move and outcome, or the same error.
pub proof fn lemma_search_deterministic(
    a: Data,
    b: Data,
    depth: nat,
    ra: Result<(Move, MoveOutcome), GameError>,
    na: Data,
    rb: Result<(Move, MoveOutcome), GameError>,
    nb: Data,
)
    requires
        a.board@ == b.board@,
        boards(a.history@) == boards(b.history@),
        a.quiet_plies == b.quiet_plies,
        a.ai_result(depth, ra, na),
        b.ai_result(depth, rb, nb),
    ensures
        ra == rb,
{
}

/// The opening position holds exactly the standard piece set. Each count
/// is taken back from the end of the placement, ten characters at a time.
#[verifier::rlimit(100)]
#[verifier::spinoff_prover]
proof fn lemma_start_within_piece_set()
    ensures
        within_piece_set(START_POS@),
{
    reveal_strlit("rnbakabnr/9/1c5c1/p1p1p1p1p/9/9/P1P1P1P1P/1C5C1/9/RNBAKABNR w");
    let s = START_POS@;
    assert(s[0] == 'r');
    assert(count_of(s, 'K', 'K') == 1) by {
        reveal_with_fuel(count_from, 12);
        assert(count_from(s, 50, 'K', 'K') == 1);
        assert(count_from(s, 40, 'K', 'K') == 1);
        assert(count_from(s, 30, 'K', 'K') == 1);
        assert(count_from(s, 20, 'K', 'K') == 1);
        assert(count_from(s, 10, 'K', 'K') == 1);
        assert(count_from(s, 0, 'K', 'K') == 1);
    }
    assert(count_of(s, 'A', 'A') == 2) by {
        reveal_with_fuel(count_from, 12);
        assert(count_from(s, 50, 'A', 'A') == 2);
        assert(count_from(s, 40, 'A', 'A') == 2);
        assert(count_from(s, 30, 'A', 'A') == 2);
        assert(count_from(s, 20, 'A', 'A') == 2);
        assert(count_from(s, 10, 'A', 'A') == 2);
        assert(count_from(s, 0, 'A', 'A') == 2);
    }
    assert(count_of(s, 'B', 'E') == 2) by {
        reveal_with_fuel(count_from, 12);
        assert(count_from(s, 50, 'B', 'E') == 2);
        assert(count_from(s, 40, 'B', 'E') == 2);
        assert(count_from(s, 30, 'B', 'E') == 2);
        assert(count_from(s, 20, 'B', 'E') == 2);
        assert(count_from(s, 10, 'B', 'E') == 2);
        assert(count_from(s, 0, 'B', 'E') == 2);
    }
    assert(count_of(s, 'N', 'H') == 2) by {
        reveal_with_fuel(count_from, 12);
        assert(count_from(s, 50, 'N', 'H') == 2);
        assert(count_from(s, 40, 'N', 'H') == 2);
        assert(count_from(s, 30, 'N', 'H') == 2);
        assert(count_from(s, 20, 'N', 'H') == 2);
        assert(count_from(s, 10, 'N', 'H') == 2);
        assert(count_from(s, 0, 'N', 'H') == 2);
    }
    assert(count_of(s, 'R', 'R') == 2) by {
        reveal_with_fuel(count_from, 12);
        assert(count_from(s, 50, 'R', 'R') == 2);
        assert(count_from(s, 40, 'R', 'R') == 2);
        assert(count_from(s, 30, 'R', 'R') == 2);
        assert(count_from(s, 20, 'R', 'R') == 2);
        assert(count_from(s, 10, 'R', 'R') == 2);
        assert(count_from(s, 0, 'R', 'R') == 2);
    }
    assert(count_of(s, 'C', 'C') == 2) by {
        reveal_with_fuel(count_from, 12);
        assert(count_from(s, 50, 'C', 'C') == 0);
        assert(count_from(s, 40, 'C', 'C') == 2);
        assert(count_from(s, 30, 'C', 'C') == 2);
        assert(count_from(s, 20, 'C', 'C') == 2);
        assert(count_from(s, 10, 'C', 'C') == 2);
        assert(count_from(s, 0, 'C', 'C') == 2);
    }
    assert(count_of(s, 'P', 'P') == 5) by {
        reveal_with_fuel(count_from, 12);
        assert(count_from(s, 50, 'P', 'P') == 0);
        assert(count_from(s, 40, 'P', 'P') == 1);
        assert(count_from(s, 30, 'P', 'P') == 5);
        assert(count_from(s, 20, 'P', 'P') == 5);
        assert(count_from(s, 10, 'P', 'P') == 5);
        assert(count_from(s, 0, 'P', 'P') == 5);
    }
    assert(count_of(s, 'k', 'k') == 1) by {
        reveal_with_fuel(count_from, 12);
        assert(count_from(s, 50, 'k', 'k') == 0);
        assert(count_from(s, 40, 'k', 'k') == 0);
        assert(count_from(s, 30, 'k', 'k') == 0);
        assert(count_from(s, 20, 'k', 'k') == 0);
        assert(count_from(s, 10, 'k', 'k') == 0);
        assert(count_from(s, 0, 'k', 'k') == 1);
    }
    assert(count_of(s, 'a', 'a') == 2) by {
        reveal_with_fuel(count_from, 12);
        assert(count_from(s, 50, 'a', 'a') == 0);
        assert(count_from(s, 40, 'a', 'a') == 0);
        assert(count_from(s, 30, 'a', 'a') == 0);
        assert(count_from(s, 20, 'a', 'a') == 0);
        assert(count_from(s, 10, 'a', 'a') == 0);
        assert(count_from(s, 0, 'a', 'a') == 2);
    }
    assert(count_of(s, 'b', 'e') == 2) by {
        reveal_with_fuel(count_from, 12);
        assert(count_from(s, 50, 'b', 'e') == 0);
        assert(count_from(s, 40, 'b', 'e') == 0);
        assert(count_from(s, 30, 'b', 'e') == 0);
        assert(count_from(s, 20, 'b', 'e') == 0);
        assert(count_from(s, 10, 'b', 'e') == 0);
        assert(count_from(s, 0, 'b', 'e') == 2);
    }
    assert(count_of(s, 'n', 'h') == 2) by {
        reveal_with_fuel(count_from, 12);
        assert(count_from(s, 50, 'n', 'h') == 0);
        assert(count_from(s, 40, 'n', 'h') == 0);
        assert(count_from(s, 30, 'n', 'h') == 0);
        assert(count_from(s, 20, 'n', 'h') == 0);
        assert(count_from(s, 10, 'n', 'h') == 0);
        assert(count_from(s, 0, 'n', 'h') == 2);
    }
    assert(count_of(s, 'r', 'r') == 2) by {
        reveal_with_fuel(count_from, 12);
        assert(count_from(s, 50, 'r', 'r') == 0);
        assert(count_from(s, 40, 'r', 'r') == 0);
        assert(count_from(s, 30, 'r', 'r') == 0);
        assert(count_from(s, 20, 'r', 'r') == 0);
        assert(count_from(s, 10, 'r', 'r') == 0);
        assert(count_from(s, 0, 'r', 'r') == 2);
    }
    assert(count_of(s, 'c', 'c') == 2) by {
        reveal_with_fuel(count_from, 12);
        assert(count_from(s, 50, 'c', 'c') == 0);
        assert(count_from(s, 40, 'c', 'c') == 0);
        assert(count_from(s, 30, 'c', 'c') == 0);
        assert(count_from(s, 20, 'c', 'c') == 0);
        assert(count_from(s, 10, 'c', 'c') == 2);
        assert(count_from(s, 0, 'c', 'c') == 2);
    }
    assert(count_of(s, 'p', 'p') == 5) by {
        reveal_with_fuel(count_from, 12);
        assert(count_from(s, 50, 'p', 'p') == 0);
        assert(count_from(s, 40, 'p', 'p') == 0);
        assert(count_from(s, 30, 'p', 'p') == 0);
        assert(count_from(s, 20, 'p', 'p') == 4);
        assert(count_from(s, 10, 'p', 'p') == 5);
        assert(count_from(s, 0, 'p', 'p') == 5);
    }
}

/// A player's identity.
pub struct Player {
    pub id: String,
    pub name: String,
}

impl Player {
    pub fn new_white() -> (r: Player)
        ensures
            r.id@ == "0"@,
            r.name@ == "White"@,
    {
        Player { id: String::from_str("0"), name: String::from_str("White") }
    }

    pub fn new_black() -> (r: Player)
        ensures
            r.id@ == "1"@,
            r.name@ == "Black"@,
    {
        Player { id: String::from_str("1"), name: String::from_str("Black") }
    }

    pub fn set_id(&mut self, id: &str)
        ensures
            final(self).id@ == id@,
            final(self).name == old(self).name,
    {
        self.id = String::from_str(id);
    }

    pub fn set_name(&mut self, name: &str)
        ensures
            final(self).name@ == name@,
            final(self).id == old(self).id,
    {
        self.name = String::from_str(name);
    }
}

/// Whether a move took a piece: the board holds fewer pieces after it.
pub open spec fn captures(before: Seq<char>, after: Seq<char>) -> bool {
    piece_count_of(after) < piece_count_of(before)
}

pub open spec fn saturating_inc(n: usize) -> usize {
    if n < usize::MAX {
        (n + 1) as usize
    } else {
        n
    }
}

/// One game: the current position as a canonical board string, the boards
/// of the earlier positions (oldest first), and the counters that the
/// terminal detector reads.
pub struct Data {
    pub white_player: Player,
    pub black_player: Player,
    pub board: String,
    pub history: Vec<String>,
    pub quiet_plies: usize,
    pub round: usize,
    pub current_color: PieceColor,
    pub current_select: Option<(usize, usize)>,
    pub previous_state: Option<Status>,
}

impl Data {
    pub open spec fn wf(&self) -> bool {
        &&& self.board@.len() <= 101
        &&& within_piece_set(self.board@)
        &&& self.current_select matches Some((r, c)) ==> r < 10 && c < 9
    }

    /// The terminal detector's verdict on the current position.
    pub open spec fn verdict_spec(&self) -> Verdict {
        verdict_of(
            side_of(self.board@),
            legal_of(self.board@).len(),
            occurrences(boards(self.history@), self.board@),
            self.quiet_plies as nat,
            MAX_QUIET_PLIES as nat,
        )
    }

    /// `next` is this game after a move that led to board `nb`.
    pub open spec fn advanced(&self, next: Data, nb: Seq<char>) -> bool {
        &&& next.wf()
        &&& next.board@ == nb
        &&& boards(next.history@) == boards(self.history@).push(self.board@)
        &&& next.quiet_plies == (if captures(self.board@, nb) {
            0
        } else {
            saturating_inc(self.quiet_plies)
        })
        &&& next.round == saturating_inc(self.round)
        &&& next.current_color == side_of(nb)
        &&& next.current_select is None
        &&& next.previous_state == self.previous_state
        &&& next.white_player == self.white_player
        &&& next.black_player == self.black_player
    }

    /// What playing `m` on this game returns (`r`) and leaves (`next`).
    pub open spec fn play_result(
        &self,
        m: Move,
        r: Result<MoveOutcome, GameError>,
        next: Data,
    ) -> bool {
        if legal_of(self.board@).contains(m) {
            let nb = play_of(self.board@, m)->Some_0;
            &&& self.advanced(next, nb)
            &&& r == Ok::<MoveOutcome, GameError>(
                outcome_of(next.verdict_spec(), in_check_of(nb), captures(self.board@, nb)),
            )
        } else {
            r == Err::<MoveOutcome, GameError>(GameError::IllegalMove) && next == *self
        }
    }

    /// What asking the engine for a move to `depth` plies returns (`r`) and
    /// leaves (`next`).
    pub open spec fn ai_result(
        &self,
        depth: nat,
        r: Result<(Move, MoveOutcome), GameError>,
        next: Data,
    ) -> bool {
        if self.verdict_spec() != Verdict::Ongoing {
            r == Err::<(Move, MoveOutcome), GameError>(GameError::NoLegalMove) && next == *self
        } else {
            match search_of(self.board@, depth).0 {
                Some(m) => if legal_of(self.board@).contains(m) {
                    r is Ok && r->Ok_0.0 == m && self.play_result(
                        m,
                        Ok::<MoveOutcome, GameError>(r->Ok_0.1),
                        next,
                    )
                } else {
                    r == Err::<(Move, MoveOutcome), GameError>(GameError::NoLegalMove) && next
                        == *self
                },
                None => r == Err::<(Move, MoveOutcome), GameError>(GameError::NoLegalMove) && next
                    == *self,
            }
        }
    }

    /// A game at the opening position, white (red) to move.
    pub fn new() -> (r: Data)
        ensures
            r.wf(),
            r.board@ == START_POS@,
            r.history@.len() == 0,
            r.quiet_plies == 0,
            r.round == 0,
            r.current_color == PieceColor::White,
            r.current_select is None,
            r.previous_state is None,
    {
        proof {
            reveal_strlit("rnbakabnr/9/1c5c1/p1p1p1p1p/9/9/P1P1P1P1P/1C5C1/9/RNBAKABNR w");
            lemma_start_within_piece_set();
        }
        Data {
            white_player: Player::new_white(),
            black_player: Player::new_black(),
            board: String::from_str(START_POS),
            history: Vec::new(),
            quiet_plies: 0,
            round: 0,
            current_color: PieceColor::White,
            current_select: None,
            previous_state: None,
        }
    }

    /// A game at the position that a board description gives.
    pub fn from_notation(s: &str) -> (r: Result<Data, GameError>)
        ensures
            r is Ok <==> (s@.len() <= 128 && (board_of(s@) matches Some(b) && within_piece_set(b))),
            r matches Ok(d) ==> {
                &&& d.wf()
                &&& d.board@ == board_of(s@)->Some_0
                &&& board_of(d.board@) == Some(d.board@)
                &&& d.history@.len() == 0
                &&& d.quiet_plies == 0
                &&& d.current_color == side_of(d.board@)
            },
            r matches Err(e) ==> e == GameError::InvalidNotation,
    {
        if s.unicode_len() > 128 {
            return Err(GameError::InvalidNotation);
        }
        match canonical_board(s) {
            None => Err(GameError::InvalidNotation),
            Some(b) => {
                if !piece_set_ok(b.as_str()) {
                    return Err(GameError::InvalidNotation);
                }
                let side = side_to_move(b.as_str());
                Ok(
                    Data {
                        white_player: Player::new_white(),
                        black_player: Player::new_black(),
                        board: b,
                        history: Vec::new(),
                        quiet_plies: 0,
                        round: 0,
                        current_color: side,
                        current_select: None,
                        previous_state: None,
                    },
                )
            },
        }
    }

    /// The board description of the current position.
    pub fn to_notation(&self) -> (r: String)
        ensures
            r@ == self.board@,
    {
        self.board.clone()
    }

    /// The legal moves of the current position.
    pub fn legal_moves(&self) -> (r: Vec<Move>)
        requires
            self.wf(),
        ensures
            r@ == legal_of(self.board@),
            forall|i: int| 0 <= i < r@.len() ==> (#[trigger] r@[i]).wf(),
    {
        legal_moves_at(self.board.as_str())
    }

    /// Whether the side to move stands in check.
    pub fn in_check(&self) -> (r: bool)
        requires
            self.wf(),
        ensures
            r == in_check_of(self.board@),
    {
        in_check_at(self.board.as_str())
    }

    /// The terminal detector's verdict on the current position.
    pub fn verdict(&self) -> (r: Verdict)
        requires
            self.wf(),
        ensures
            r == self.verdict_spec(),
    {
        let legal = legal_moves_at(self.board.as_str());
        let earlier = count_occurrences(&self.history, &self.board);
        classify(
            side_to_move(self.board.as_str()),
            legal.len(),
            earlier,
            self.quiet_plies,
            MAX_QUIET_PLIES,
        )
    }

    /// Plays a move through the engine, records the position left, and
    /// classifies the new one.
    fn play(&mut self, m: &Move) -> (r: Result<MoveOutcome, GameError>)
        requires
            old(self).wf(),
            m.wf(),
        ensures
            old(self).play_result(*m, r, *final(self)),
    {
        let iccs = decode(m);
        proof {
            lemma_decode_encode(*m);
        }
        match play_at(self.board.as_str(), iccs.as_str()) {
            None => Err(GameError::IllegalMove),
            Some(nb) => {
                let captured = piece_count(nb.as_str()) < piece_count(self.board.as_str());
                let check = in_check_at(nb.as_str());
                let side = side_to_move(nb.as_str());
                let old_board = self.board.clone();
                self.board = nb;
                self.history.push(old_board);
                proof {
                    assert(boards(self.history@) =~= boards(old(self).history@).push(
                        old(self).board@,
                    ));
                }
                self.quiet_plies = if captured {
                    0
                } else if self.quiet_plies < usize::MAX {
                    self.quiet_plies + 1
                } else {
                    self.quiet_plies
                };
                self.round = if self.round < usize::MAX {
                    self.round + 1
                } else {
                    self.round
                };
                self.current_color = side;
                self.current_select = None;
                let v = self.verdict();
                let outcome = match v {
                    Verdict::Checkmate(w) => MoveOutcome::Checkmate(w),
                    Verdict::Draw(d) => MoveOutcome::Draw(d),
                    Verdict::Ongoing => if check {
                        MoveOutcome::Check
                    } else if captured {
                        MoveOutcome::Captured
                    } else {
                        MoveOutcome::Moved
                    },
                };
                Ok(outcome)
            },
        }
    }

    /// Plays a user's move given in coordinate notation, if it is legal.
    pub fn try_user_move(&mut self, notation: &str) -> (r: Result<MoveOutcome, GameError>)
        requires
            old(self).wf(),
        ensures
            !valid_notation(notation@) ==> r == Err::<MoveOutcome, GameError>(
                GameError::InvalidNotation,
            ) && *final(self) == *old(self),
            valid_notation(notation@) && !legal_of(old(self).board@).contains(
                move_of_notation(notation@),
            ) ==> r == Err::<MoveOutcome, GameError>(GameError::IllegalMove) && *final(self)
                == *old(self),
            valid_notation(notation@) && legal_of(old(self).board@).contains(
                move_of_notation(notation@),
            ) ==> old(self).play_result(move_of_notation(notation@), r, *final(self)),
            final(self).wf(),
    {
        let m = match encode(notation) {
            Ok(m) => m,
            Err(_) => {
                return Err(GameError::InvalidNotation);
            },
        };
        let legal = legal_moves_at(self.board.as_str());
        if !contains_move(&legal, &m) {
            return Err(GameError::IllegalMove);
        }
        self.play(&m)
    }

    /// Lets the engine search the current position to `depth` plies and
    /// plays the move it chooses.
    pub fn request_ai_move(&mut self, depth: u8) -> (r: Result<(Move, MoveOutcome), GameError>)
        requires
            old(self).wf(),
        ensures
            old(self).ai_result(depth as nat, r, *final(self)),
            final(self).wf(),
    {
        if self.verdict() != Verdict::Ongoing {
            return Err(GameError::NoLegalMove);
        }
        let (best, _score) = search_at(self.board.as_str(), depth);
        match best {
            None => Err(GameError::NoLegalMove),
            Some(m) => {
                let legal = legal_moves_at(self.board.as_str());
                if !contains_move(&legal, &m) {
                    return Err(GameError::NoLegalMove);
                }
                let o = self.play(&m);
                match o {
                    Ok(out) => Ok((m, out)),
                    Err(e) => Err(e),
                }
            },
        }
    }

    /// Starts a game against the engine from the opening position; the
    /// player (named "玩家") takes `player_color`, the engine ("AI") the other
    /// side. The round, the side shown and the selection stay as they were.
    pub fn set_ai_game(&mut self, player_color: PieceColor)
        ensures
            old(self).wf() ==> final(self).wf(),
            final(self).board@ == START_POS@,
            final(self).history@.len() == 0,
            final(self).quiet_plies == 0,
            final(self).round == old(self).round,
            final(self).current_color == old(self).current_color,
            final(self).current_select == old(self).current_select,
            final(self).previous_state == old(self).previous_state,
            final(self).white_player.id@ == "0"@,
            final(self).black_player.id@ == "1"@,
            player_color == PieceColor::White ==> final(self).white_player.name@ == "玩家"@
                && final(self).black_player.name@ == "AI"@,
            player_color == PieceColor::Black ==> final(self).white_player.name@ == "AI"@
                && final(self).black_player.name@ == "玩家"@,
    {
        proof {
            reveal_strlit("rnbakabnr/9/1c5c1/p1p1p1p1p/9/9/P1P1P1P1P/1C5C1/9/RNBAKABNR w");
            lemma_start_within_piece_set();
        }
        self.board = String::from_str(START_POS);
        self.history = Vec::new();
        self.quiet_plies = 0;
        self.white_player.set_id("0");
        self.black_player.set_id("1");
        match player_color {
            PieceColor::White => {
                self.white_player.set_name("玩家");
                self.black_player.set_name("AI");
            },
            PieceColor::Black => {
                self.white_player.set_name("AI");
                self.black_player.set_name("玩家");
            },
        }
    }

    /// Plays a move given in coordinate notation; true if it was legal and
    /// played.
    pub fn go(&mut self, route: String) -> (r: bool)
        requires
            old(self).wf(),
        ensures
            r == (valid_notation(route@) && legal_of(old(self).board@).contains(
                move_of_notation(route@),
            )),
            !r ==> *final(self) == *old(self),
            r ==> old(self).advanced(
                *final(self),
                play_of(old(self).board@, move_of_notation(route@))->Some_0,
            ),
    {
        self.try_user_move(route.as_str()).is_ok()
    }

    /// The source and destination cells, as (row, column), of a move in
    /// coordinate notation.
    pub fn parse_route(&self, route: String) -> (r: ((usize, usize), (usize, usize)))
        ensures
            valid_notation(route@) ==> r == ((move_of_notation(route@).src_row, move_of_notation(route@).src_col), (
                move_of_notation(route@).dst_row,
                move_of_notation(route@).dst_col,
            )),
    {
        match encode(route.as_str()) {
            Ok(m) => ((m.src_row, m.src_col), (m.dst_row, m.dst_col)),
            Err(_) => ((0, 0), (0, 0)),
        }
    }
}

} // verus!
