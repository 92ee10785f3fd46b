use vstd::prelude::*;
use crate::codec::{Move, no_dups};
use crate::engine::{legal_of, in_check_of, occupied_of, legal_moves_at, in_check_at, occupied_at};
use crate::game::{Data, contains_move};

verus! {

/// The phase of the move sorter that the next candidate comes from.
#[allow(non_camel_case_types)]
#[derive(Clone, Copy, Debug, PartialEq, Eq, Structural)]
pub enum Phase {
    /// The best move that the transposition table holds for the position.
    HASH,
    /// The killer moves recorded for this depth.
    KILLER,
    /// The remaining legal moves, by history weight.
    REST,
}

/// Index of a move in a history table: source cell times 90 plus the
/// destination cell, cells numbered row by row.
pub open spec fn history_index_of(m: Move) -> int {
    (m.src_row * 9 + m.src_col) * 90 + m.dst_row * 9 + m.dst_col
}

/// History weight of a move (0 where the table is too short), doubled, plus
/// one for a capture: captures come before quiet moves of equal history.
pub open spec fn weight_of(history: Seq<u32>, board: Seq<char>, m: Move) -> int {
    2 * (if 0 <= history_index_of(m) < history.len() {
        history[history_index_of(m)] as int
    } else {
        0
    }) + (if occupied_of(board, m.dst_row as int, m.dst_col as int) {
        1int
    } else {
        0int
    })
}

pub open spec fn sorted_desc(v: Seq<u64>, start: int) -> bool {
    forall|i: int, j: int| start <= i < j < v.len() ==> v[i] >= v[j]
}

/// Orders the candidate moves of one search node: the hash move, then the
/// killer moves, then the rest by descending history weight.
pub struct MoveSort {
    pub mvs: Vec<Move>,
    pub vls: Vec<u64>,
    pub history: Vec<u32>,
    pub board: String,
    pub index: usize,
    pub phase: Phase,
    pub signle: bool,
    pub n_hash: usize,
    pub n_front: usize,
}

pub fn history_index(m: &Move) -> (r: usize)
    requires
        m.wf(),
    ensures
        r as int == history_index_of(*m),
        r < 8100,
{
    (m.src_row * 9 + m.src_col) * 90 + m.dst_row * 9 + m.dst_col
}

fn weight(history: &Vec<u32>, board: &str, m: &Move) -> (r: u64)
    requires
        m.wf(),
        board@.len() <= 128,
    ensures
        r as int == weight_of(history@, board@, *m),
{
    let i = history_index(m);
    let h: u64 = if i < history.len() {
        history[i] as u64
    } else {
        0
    };
    let c: u64 = if occupied_at(board, m.dst_row, m.dst_col) {
        1
    } else {
        0
    };
    2 * h + c
}

/// Inserts `m` with weight `w` into the part from `start` on, after every
/// entry of weight at least `w`, keeping that part in descending order.
fn insert_sorted(mvs: &mut Vec<Move>, vls: &mut Vec<u64>, start: usize, m: Move, w: u64) -> (p:
    usize)
    requires
        old(mvs)@.len() == old(vls)@.len(),
        start <= old(vls)@.len(),
        sorted_desc(old(vls)@, start as int),
    ensures
        sorted_desc(final(vls)@, start as int),
        start <= p <= old(vls)@.len(),
        final(mvs)@ == old(mvs)@.insert(p as int, m),
        final(vls)@ == old(vls)@.insert(p as int, w),
        forall|t: int| start <= t < p ==> old(vls)@[t] >= w,
        p < old(vls)@.len() ==> old(vls)@[p as int] < w,
{
    let mut p: usize = start;
    while p < vls.len() && vls[p] >= w
        invariant
            vls@ == old(vls)@,
            mvs@ == old(mvs)@,
            start <= p <= vls@.len(),
            forall|t: int| start <= t < p ==> vls@[t] >= w,
        decreases vls@.len() - p,
    {
        p = p + 1;
    }
    proof {
        assert(p < vls@.len() ==> vls@[p as int] < w);
    }
    mvs.insert(p, m);
    vls.insert(p, w);
    proof {
        let o = old(vls)@;
        let n = vls@;
        assert forall|i: int, j: int| start <= i < j < n.len() implies n[i] >= n[j] by {
            if j < p {
            } else if i < p && j == p {
            } else if i < p && j > p {
                assert(n[j] == o[j - 1]);
                assert(o[j - 1] <= o[p as int]);
            } else if i == p {
                assert(n[j] == o[j - 1]);
                assert(o[j - 1] <= o[p as int] || j - 1 == p);
            } else {
                assert(n[i] == o[i - 1]);
                assert(n[j] == o[j - 1]);
            }
        }
    }
    p
}

/// The moves tried first: the hash move if it is legal, then each legal
/// killer move in the order of the killer slots, each once.
pub open spec fn front_of(hash_mv: Option<Move>, killers: Seq<Move>, legal: Seq<Move>) -> Seq<
    Move,
>
    decreases killers.len(),
{
    if killers.len() == 0 {
        match hash_mv {
            Some(h) => if legal.contains(h) {
                seq![h]
            } else {
                Seq::<Move>::empty()
            },
            None => Seq::<Move>::empty(),
        }
    } else {
        let prev = front_of(hash_mv, killers.drop_last(), legal);
        let k = killers.last();
        if legal.contains(k) && !prev.contains(k) {
            prev.push(k)
        } else {
            prev
        }
    }
}

/// The phase that the candidate at position `i` belongs to.
pub open spec fn phase_at(i: int, n_hash: int, n_front: int) -> Phase {
    if i < n_hash {
        Phase::HASH
    } else if i < n_front {
        Phase::KILLER
    } else {
        Phase::REST
    }
}

impl MoveSort {
    /// The candidates are the legal moves of the position; `hash_mv` is the
    /// transposition table's best move for it, `killers` the killer slots of
    /// this depth, `history` the history table.
    pub open spec fn wf_for(&self, data: Data, hash_mv: Option<Move>, killers: Seq<Move>) -> bool {
        let legal = legal_of(data.board@);
        &&& self.board@ == data.board@
        &&& self.mvs@.len() == self.vls@.len()
        &&& self.n_hash <= self.n_front <= self.mvs@.len()
        &&& no_dups(self.mvs@)
        &&& forall|x: Move| self.mvs@.contains(x) <==> legal.contains(x)
        &&& (self.n_hash == 1 <==> (hash_mv matches Some(h) && legal.contains(h)))
        &&& self.n_hash == 1 ==> hash_mv == Some(self.mvs@[0])
        &&& forall|t: int|
            self.n_hash <= t < self.n_front ==> killers.contains(#[trigger] self.mvs@[t])
        &&& forall|k: Move|
            killers.contains(k) && legal.contains(k) ==> exists|t: int|
                0 <= t < self.n_front && #[trigger] self.mvs@[t] == k
        &&& self.mvs@.subrange(0, self.n_front as int) == front_of(hash_mv, killers, legal)
        &&& sorted_desc(self.vls@, self.n_front as int)
        &&& forall|t1: int, t2: int|
            self.n_front <= t1 < t2 < self.mvs@.len() && self.vls@[t1] == self.vls@[t2] ==> exists|
                i1: int,
                i2: int,
            |
                0 <= i1 < i2 < legal.len() && legal[i1] == self.mvs@[t1] && legal[i2]
                    == self.mvs@[t2]
        &&& forall|t: int|
            self.n_front <= t < self.mvs@.len() ==> self.vls@[t] as int == weight_of(
                self.history@,
                data.board@,
                #[trigger] self.mvs@[t],
            )
    }

    /// Prepares the candidates of a search node: the hash move and the killer
    /// moves first (see `front_of`), then the other legal moves by descending
    /// weight, equal weights in generation order. When the side to move is in
    /// check they are exactly its evasions, and `signle` says whether there is
    /// only one.
    pub fn new(data: &Data, hash_mv: Option<Move>, killers: Vec<Move>, history: Vec<u32>) -> (r:
        Self)
        requires
            data.wf(),
        ensures
            r.wf_for(*data, hash_mv, killers@),
            r.history == history,
            r.index == 0,
            r.signle == (in_check_of(data.board@) && legal_of(data.board@).len() == 1),
            r.phase == (if in_check_of(data.board@) {
                Phase::REST
            } else {
                Phase::HASH
            }),
    {
        let board = data.board.as_str();
        let legal = legal_moves_at(board);
        let mut mvs: Vec<Move> = Vec::new();
        let mut vls: Vec<u64> = Vec::new();
        let mut n_hash: usize = 0;
        match hash_mv {
            Some(h) => {
                if contains_move(&legal, &h) {
                    mvs.push(h);
                    vls.push(0);
                    n_hash = 1;
                    proof {
                        assert(mvs@ =~= seq![h]);
                    }
                }
            },
            None => {},
        }
        let mut k: usize = 0;
        while k < killers.len()
            invariant
                mvs@.len() == vls@.len(),
                n_hash <= mvs@.len(),
                legal@ == legal_of(data.board@),
                no_dups(mvs@),
                forall|x: Move| mvs@.contains(x) ==> legal@.contains(x),
                (n_hash == 1 <==> (hash_mv matches Some(h) && legal@.contains(h))),
                n_hash == 1 ==> hash_mv == Some(mvs@[0]),
                forall|t: int| n_hash <= t < mvs@.len() ==> killers@.contains(#[trigger] mvs@[t]),
                forall|j: int|
                    0 <= j < k && legal@.contains(killers@[j]) ==> exists|t: int|
                        0 <= t < mvs@.len() && #[trigger] mvs@[t] == killers@[j],
                k <= killers@.len(),
                mvs@ == front_of(hash_mv, killers@.take(k as int), legal@),
            decreases killers@.len() - k,
        {
            let km = killers[k];
            let ghost om = mvs@;
            proof {
                assert(killers@.take(k + 1).drop_last() =~= killers@.take(k as int));
                assert(killers@.take(k + 1).last() == km);
            }
            if contains_move(&legal, &km) && !contains_move(&mvs, &km) {
                mvs.push(km);
                vls.push(0);
                proof {
                    assert forall|j: int|
                        0 <= j <= k && legal@.contains(killers@[j]) implies exists|t: int|
                        0 <= t < mvs@.len() && #[trigger] mvs@[t] == killers@[j] by {
                        if j < k {
                            let t = choose|t: int| 0 <= t < om.len() && om[t] == killers@[j];
                            assert(mvs@[t] == killers@[j]);
                        } else {
                            assert(mvs@[om.len() as int] == killers@[j]);
                        }
                    }
                    assert(mvs@[mvs@.len() - 1] == km);
                    assert forall|x: Move| mvs@.contains(x) implies legal@.contains(x) by {
                        if x != km {
                            let t = choose|t: int| 0 <= t < mvs@.len() && mvs@[t] == x;
                            assert(mvs@.drop_last()[t] == x);
                        }
                    }
                }
            } else {
                proof {
                    if legal@.contains(km) {
                        let t = choose|t: int| 0 <= t < mvs@.len() && mvs@[t] == km;
                    }
                }
            }
            k = k + 1;
        }
        proof {
            assert(killers@.take(k as int) =~= killers@);
            assert(mvs@.subrange(0, mvs@.len() as int) =~= mvs@);
        }
        let n_front = mvs.len();
        let ghost mut idx: Seq<int> = Seq::empty();
        let mut i: usize = 0;
        while i < legal.len()
            invariant
                mvs@.len() == vls@.len(),
                n_hash <= n_front <= mvs@.len(),
                legal@ == legal_of(data.board@),
                forall|t: int| 0 <= t < legal@.len() ==> (#[trigger] legal@[t]).wf(),
                data.wf(),
                board@ == data.board@,
                no_dups(mvs@),
                forall|x: Move| mvs@.contains(x) ==> legal@.contains(x),
                forall|j: int| 0 <= j < i ==> mvs@.contains(#[trigger] legal@[j]),
                (n_hash == 1 <==> (hash_mv matches Some(h) && legal@.contains(h))),
                n_hash == 1 ==> hash_mv == Some(mvs@[0]),
                forall|t: int| n_hash <= t < n_front ==> killers@.contains(#[trigger] mvs@[t]),
                forall|k: Move|
                    killers@.contains(k) && legal@.contains(k) ==> exists|t: int|
                        0 <= t < n_front && #[trigger] mvs@[t] == k,
                sorted_desc(vls@, n_front as int),
                forall|t: int|
                    n_front <= t < mvs@.len() ==> vls@[t] as int == weight_of(
                        history@,
                        data.board@,
                        #[trigger] mvs@[t],
                    ),
                i <= legal@.len(),
                mvs@.subrange(0, n_front as int) == front_of(hash_mv, killers@, legal@),
                idx.len() == mvs@.len() - n_front,
                forall|t: int|
                    0 <= t < idx.len() ==> 0 <= #[trigger] idx[t] < i && legal@[idx[t]] == mvs@[n_front
                        + t],
                forall|t1: int, t2: int|
                    0 <= t1 < t2 < idx.len() && vls@[n_front + t1] == vls@[n_front + t2] ==> idx[t1]
                        < idx[t2],
            decreases legal@.len() - i,
        {
            let m = legal[i];
            if !contains_move(&mvs, &m) {
                let w = weight(&history, board, &m);
                let ghost om = mvs@;
                let ghost ov = vls@;
                let pos = insert_sorted(&mut mvs, &mut vls, n_front, m, w);
                proof {
                    let p = pos as int;
                    let oi = idx;
                    let q = p - n_front;
                    idx = oi.insert(q, i as int);
                    assert(mvs@.subrange(0, n_front as int) =~= om.subrange(0, n_front as int));
                    assert forall|t: int| 0 <= t < idx.len() implies 0 <= #[trigger] idx[t] < i + 1
                        && legal@[idx[t]] == mvs@[n_front + t] by {
                        if t < q {
                            assert(idx[t] == oi[t]);
                        } else if t > q {
                            assert(idx[t] == oi[t - 1]);
                        }
                    }
                    assert forall|t1: int, t2: int|
                        0 <= t1 < t2 < idx.len() && vls@[n_front + t1] == vls@[n_front
                            + t2] implies idx[t1] < idx[t2] by {
                        if t2 < q {
                            assert(idx[t1] == oi[t1] && idx[t2] == oi[t2]);
                            assert(vls@[n_front + t1] == ov[n_front + t1]);
                            assert(vls@[n_front + t2] == ov[n_front + t2]);
                        } else if t2 == q {
                            assert(idx[t1] == oi[t1]);
                        } else if t1 == q {
                            assert(vls@[n_front + t2] == ov[n_front + t2 - 1]);
                            assert(ov[n_front + t2 - 1] <= ov[p]);
                        } else if t1 < q {
                            assert(idx[t1] == oi[t1] && idx[t2] == oi[t2 - 1]);
                            assert(vls@[n_front + t1] == ov[n_front + t1]);
                            assert(vls@[n_front + t2] == ov[n_front + t2 - 1]);
                        } else {
                            assert(idx[t1] == oi[t1 - 1] && idx[t2] == oi[t2 - 1]);
                            assert(vls@[n_front + t1] == ov[n_front + t1 - 1]);
                            assert(vls@[n_front + t2] == ov[n_front + t2 - 1]);
                        }
                    }
                    assert forall|t: int| 0 <= t < p implies mvs@[t] == om[t] by {}
                    assert forall|t: int| p < t < mvs@.len() implies mvs@[t] == om[t - 1] by {}
                    assert(mvs@[p] == m);
                    assert forall|x: Move| mvs@.contains(x) implies legal@.contains(x) by {
                        let t = choose|t: int| 0 <= t < mvs@.len() && mvs@[t] == x;
                        if t < p {
                            assert(om[t] == x);
                        } else if t > p {
                            assert(om[t - 1] == x);
                        }
                    }
                    assert forall|j: int| 0 <= j <= i implies mvs@.contains(#[trigger] legal@[j]) by {
                        if j < i {
                            let t = choose|t: int| 0 <= t < om.len() && om[t] == legal@[j];
                            if t < p {
                                assert(mvs@[t] == legal@[j]);
                            } else {
                                assert(mvs@[t + 1] == legal@[j]);
                            }
                        } else {
                            assert(mvs@[p] == legal@[j]);
                        }
                    }
                    assert forall|a: int, b: int| 0 <= a < b < mvs@.len() implies mvs@[a]
                        != mvs@[b] by {
                        if a == p {
                            assert(mvs@[b] == om[b - 1]);
                        } else if b == p {
                            assert(mvs@[a] == om[a]);
                        }
                    }
                    assert forall|k: Move|
                        killers@.contains(k) && legal@.contains(k) implies exists|t: int|
                        0 <= t < n_front && #[trigger] mvs@[t] == k by {
                        let t = choose|t: int| 0 <= t < n_front && om[t] == k;
                        assert(mvs@[t] == k);
                    }
                    assert forall|t: int| n_front <= t < mvs@.len() implies vls@[t] as int
                        == weight_of(history@, data.board@, #[trigger] mvs@[t]) by {
                        if t < p {
                            assert(mvs@[t] == om[t]);
                        } else if t > p {
                            assert(mvs@[t] == om[t - 1]);
                        }
                    }
                }
            }
            i = i + 1;
        }
        proof {
            assert forall|x: Move| legal@.contains(x) implies mvs@.contains(x) by {
                let j = choose|j: int| 0 <= j < legal@.len() && legal@[j] == x;
            }
            assert forall|t1: int, t2: int|
                n_front <= t1 < t2 < mvs@.len() && vls@[t1] == vls@[t2] implies exists|
                i1: int,
                i2: int,
            | 0 <= i1 < i2 < legal@.len() && legal@[i1] == mvs@[t1] && legal@[i2] == mvs@[t2] by {
                let a = t1 - n_front;
                let b = t2 - n_front;
                assert(idx[a] < idx[b]);
                assert(legal@[idx[a]] == mvs@[t1]);
                assert(legal@[idx[b]] == mvs@[t2]);
            }
        }
        let check = in_check_at(board);
        let signle = check && legal.len() == 1;
        let phase = if check {
            Phase::REST
        } else {
            Phase::HASH
        };
        MoveSort {
            mvs,
            vls,
            history,
            board: data.board.clone(),
            index: 0,
            phase,
            signle,
            n_hash,
            n_front,
        }
    }

    /// The next candidate, or `None` once every candidate was produced; each
    /// is produced once, in order.
    pub fn next(&mut self) -> (r: Option<Move>)
        ensures
            old(self).index < old(self).mvs@.len() ==> r == Some(old(self).mvs@[old(self).index as int])
                && final(self).index == old(self).index + 1 && final(self).phase == phase_at(
                old(self).index as int,
                old(self).n_hash as int,
                old(self).n_front as int,
            ),
            old(self).index >= old(self).mvs@.len() ==> r is None && final(self).index == old(
                self,
            ).index && final(self).phase == old(self).phase,
            final(self).mvs == old(self).mvs,
            final(self).vls == old(self).vls,
            final(self).history == old(self).history,
            final(self).board == old(self).board,
            final(self).signle == old(self).signle,
            final(self).n_hash == old(self).n_hash,
            final(self).n_front == old(self).n_front,
    {
        if self.index >= self.mvs.len() {
            return None;
        }
        let i = self.index;
        self.phase = if i < self.n_hash {
            Phase::HASH
        } else if i < self.n_front {
            Phase::KILLER
        } else {
            Phase::REST
        };
        self.index = i + 1;
        Some(self.mvs[i])
    }
}

} // verus!
