use vstd::prelude::*;

verus! {

/// How many characters equal to `a` or `b` the placement part of a board
/// string holds from index `i` up to the first space.
pub open spec fn count_from(s: Seq<char>, i: int, a: char, b: char) -> nat
    decreases s.len() - i,
{
    if i < 0 || i >= s.len() || s[i] == ' ' {
        0
    } else {
        (if s[i] == a || s[i] == b {
            1nat
        } else {
            0nat
        }) + count_from(s, i + 1, a, b)
    }
}

pub open spec fn count_of(s: Seq<char>, a: char, b: char) -> nat {
    count_from(s, 0, a, b)
}

/// A character that may open a board string: a piece letter, a digit or a
/// rank separator (so no leading whitespace is trimmed away when it is read).
pub open spec fn is_board_start(c: char) -> bool {
    ('a' <= c <= 'z') || ('A' <= c <= 'Z') || ('0' <= c <= '9') || c == '/'
}

/// The board string opens with a board character and holds no more of each
/// piece than a side starts with (letters `E` and `H` are read as bishop and
/// knight).
pub open spec fn within_piece_set(s: Seq<char>) -> bool {
    &&& s.len() > 0
    &&& is_board_start(s[0])
    &&& count_of(s, 'K', 'K') <= 1
    &&& count_of(s, 'A', 'A') <= 2
    &&& count_of(s, 'B', 'E') <= 2
    &&& count_of(s, 'N', 'H') <= 2
    &&& count_of(s, 'R', 'R') <= 2
    &&& count_of(s, 'C', 'C') <= 2
    &&& count_of(s, 'P', 'P') <= 5
    &&& count_of(s, 'k', 'k') <= 1
    &&& count_of(s, 'a', 'a') <= 2
    &&& count_of(s, 'b', 'e') <= 2
    &&& count_of(s, 'n', 'h') <= 2
    &&& count_of(s, 'r', 'r') <= 2
    &&& count_of(s, 'c', 'c') <= 2
    &&& count_of(s, 'p', 'p') <= 5
}

/// Counts the characters equal to `a` or `b` in the placement part.
pub fn count_letters(s: &str, a: char, b: char) -> (r: usize)
    requires
        s@.len() <= 128,
    ensures
        r as nat == count_of(s@, a, b),
{
    let n = s.unicode_len();
    let mut i: usize = 0;
    let mut count: usize = 0;
    while i < n
        invariant
            n == s@.len(),
            n <= 128,
            i <= n,
            count <= i,
            count + count_from(s@, i as int, a, b) == count_from(s@, 0, a, b),
        ensures
            count as nat == count_from(s@, 0, a, b),
        decreases n - i,
    {
        let c = s.get_char(i);
        if c == ' ' {
            break;
        }
        if c == a || c == b {
            count = count + 1;
        }
        i = i + 1;
    }
    count
}

/// Whether a board string stays within the standard piece set.
pub fn piece_set_ok(s: &str) -> (r: bool)
    requires
        s@.len() <= 128,
    ensures
        r == within_piece_set(s@),
{
    if s.unicode_len() == 0 {
        return false;
    }
    let c = s.get_char(0);
    if !(('a' <= c && c <= 'z') || ('A' <= c && c <= 'Z') || ('0' <= c && c <= '9') || c == '/') {
        return false;
    }
    count_letters(s, 'K', 'K') <= 1 && count_letters(s, 'A', 'A') <= 2 && count_letters(s, 'B', 'E')
        <= 2 && count_letters(s, 'N', 'H') <= 2 && count_letters(s, 'R', 'R') <= 2 && count_letters(
        s,
        'C',
        'C',
    ) <= 2 && count_letters(s, 'P', 'P') <= 5 && count_letters(s, 'k', 'k') <= 1 && count_letters(
        s,
        'a',
        'a',
    ) <= 2 && count_letters(s, 'b', 'e') <= 2 && count_letters(s, 'n', 'h') <= 2 && count_letters(
        s,
        'r',
        'r',
    ) <= 2 && count_letters(s, 'c', 'c') <= 2 && count_letters(s, 'p', 'p') <= 5
}

} // verus!
