use vstd::prelude::*;

verus! {

/// Number of ranks (rows) on the board.
pub const ROWS: usize = 10;

/// Number of files (columns) on the board.
pub const COLS: usize = 9;

/// A move as an ordered pair of cells: the source and the destination,
/// each given as row (rank `0..10`) and column (file `0..9`).
#[derive(Clone, Copy, Debug, PartialEq, Eq, Structural)]
pub struct Move {
    pub src_row: usize,
    pub src_col: usize,
    pub dst_row: usize,
    pub dst_col: usize,
}

/// Errors of the move codec.
#[derive(Clone, Copy, Debug, PartialEq, Eq, Structural)]
pub enum CodecError {
    /// The text is not four characters of the form column, row, column, row.
    InvalidNotation,
    /// A coordinate lies outside the 10 x 9 board.
    OutOfBounds,
}

pub open spec fn on_board(row: int, col: int) -> bool {
    0 <= row < 10 && 0 <= col < 9
}

impl Move {
    /// Both cells of the move lie on the board.
    pub open spec fn wf(&self) -> bool {
        on_board(self.src_row as int, self.src_col as int) && on_board(
            self.dst_row as int,
            self.dst_col as int,
        )
    }

    /// The move between two cells; a cell off the board is refused.
    pub fn new(src_row: usize, src_col: usize, dst_row: usize, dst_col: usize) -> (r: Result<
        Move,
        CodecError,
    >)
        ensures
            r is Ok <==> on_board(src_row as int, src_col as int) && on_board(
                dst_row as int,
                dst_col as int,
            ),
            r matches Ok(m) ==> m == (Move { src_row, src_col, dst_row, dst_col }),
            r matches Err(e) ==> e == CodecError::OutOfBounds,
    {
        if src_row < ROWS && src_col < COLS && dst_row < ROWS && dst_col < COLS {
            Ok(Move { src_row, src_col, dst_row, dst_col })
        } else {
            Err(CodecError::OutOfBounds)
        }
    }
}

pub open spec fn is_col_char(c: char) -> bool {
    'a' <= c <= 'i'
}

pub open spec fn is_row_char(c: char) -> bool {
    '0' <= c <= '9'
}

/// A well-formed coordinate notation: column letter and row digit of the
/// source, then of the destination.
pub open spec fn valid_notation(s: Seq<char>) -> bool {
    &&& s.len() == 4
    &&& is_col_char(s[0])
    &&& is_row_char(s[1])
    &&& is_col_char(s[2])
    &&& is_row_char(s[3])
}

pub open spec fn col_char(col: int) -> char {
    ((97 + col) as u8) as char
}

pub open spec fn row_char(row: int) -> char {
    ((48 + row) as u8) as char
}

/// The notation of a move.
pub open spec fn notation(m: Move) -> Seq<char> {
    seq![
        col_char(m.src_col as int),
        row_char(m.src_row as int),
        col_char(m.dst_col as int),
        row_char(m.dst_row as int),
    ]
}

/// The move that a well-formed notation denotes.
pub open spec fn move_of_notation(s: Seq<char>) -> Move {
    Move {
        src_row: (s[1] as int - 48) as usize,
        src_col: (s[0] as int - 97) as usize,
        dst_row: (s[3] as int - 48) as usize,
        dst_col: (s[2] as int - 97) as usize,
    }
}

/// No move occurs twice.
pub open spec fn no_dups(v: Seq<Move>) -> bool {
    forall|i: int, j: int| 0 <= i < j < v.len() ==> v[i] != v[j]
}

/// Reads a move from its four-character coordinate notation.
pub fn encode(s: &str) -> (r: Result<Move, CodecError>)
    ensures
        r == (if valid_notation(s@) {
            Ok::<Move, CodecError>(move_of_notation(s@))
        } else {
            Err::<Move, CodecError>(CodecError::InvalidNotation)
        }),
        r is Ok ==> r->Ok_0.wf(),
{
    if s.unicode_len() != 4 {
        return Err(CodecError::InvalidNotation);
    }
    let c0 = s.get_char(0);
    let c1 = s.get_char(1);
    let c2 = s.get_char(2);
    let c3 = s.get_char(3);
    if !('a' <= c0 && c0 <= 'i' && '0' <= c1 && c1 <= '9' && 'a' <= c2 && c2 <= 'i' && '0' <= c3
        && c3 <= '9') {
        return Err(CodecError::InvalidNotation);
    }
    Ok(
        Move {
            src_row: (c1 as u32 - 48) as usize,
            src_col: (c0 as u32 - 97) as usize,
            dst_row: (c3 as u32 - 48) as usize,
            dst_col: (c2 as u32 - 97) as usize,
        },
    )
}

/// Relies on chessai::Square::from_rank_file and Square::to_iccs: a cell
/// of the board is written as its column letter from 'a' and its row digit
/// from '0'.
#[verifier::external_body]
fn cell_iccs(row: usize, col: usize) -> (r: String)
    requires
        on_board(row as int, col as int),
    ensures
        r@ == seq![col_char(col as int), row_char(row as int)],
{
    match chessai::Square::from_rank_file(row as u8, col as u8) {
        Some(sq) => sq.to_iccs(),
        None => String::new(),
    }
}

/// Writes a move in its four-character coordinate notation.
pub fn decode(m: &Move) -> (r: String)
    requires
        m.wf(),
    ensures
        r@ == notation(*m),
        valid_notation(r@),
{
    let mut s = cell_iccs(m.src_row, m.src_col);
    let d = cell_iccs(m.dst_row, m.dst_col);
    s.append(d.as_str());
    assert(s@ =~= notation(*m));
    s
}

/// Decoding what was encoded gives back the notation.
pub proof fn lemma_round_trip(s: Seq<char>)
    requires
        valid_notation(s),
    ensures
        move_of_notation(s).wf(),
        notation(move_of_notation(s)) == s,
{
    assert(notation(move_of_notation(s)) =~= s);
}

/// Encoding what was decoded gives back the move.
pub proof fn lemma_decode_encode(m: Move)
    requires
        m.wf(),
    ensures
        valid_notation(notation(m)),
        move_of_notation(notation(m)) == m,
{
}

} // verus!
