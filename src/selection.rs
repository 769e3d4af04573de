//! The selection engine: picks, at random, one of the notes that have been
//! repeated the fewest times.
//!
//! The statistics are a list of `(note id, repeat count)` entries, one per
//! active note; a note id is the 128-bit value of its UUID.

use rand::Rng;
use vstd::prelude::*;

verus! {

/// Why no note could be selected.
#[derive(Clone, Copy, Debug, PartialEq, Eq, Structural)]
pub enum SelectionError {
    /// The statistics hold no note at all.
    EmptyCandidateSet,
}

/// The smallest repeat count among the entries (zero where there are none).
pub open spec fn min_count(s: Seq<(u128, i64)>) -> i64
    decreases s.len(),
{
    if s.len() == 0 {
        0
    } else if s.len() == 1 {
        s[0].1
    } else {
        let m = min_count(s.drop_last());
        if s.last().1 < m {
            s.last().1
        } else {
            m
        }
    }
}

/// The ids of the entries whose count is `c`, in the entries' order.
pub open spec fn ids_with_count(s: Seq<(u128, i64)>, c: i64) -> Seq<u128>
    decreases s.len(),
{
    if s.len() == 0 {
        seq![]
    } else {
        let r = ids_with_count(s.drop_last(), c);
        if s.last().1 == c {
            r.push(s.last().0)
        } else {
            r
        }
    }
}

/// The candidates: the ids of the least repeated notes.
pub open spec fn candidates(s: Seq<(u128, i64)>) -> Seq<u128> {
    ids_with_count(s, min_count(s))
}

/// Whether `id` belongs to an entry whose count is the smallest of all.
pub open spec fn is_least_repeated(s: Seq<(u128, i64)>, id: u128) -> bool {
    exists|i: int| 0 <= i < s.len() && s[i].0 == id && s[i].1 == min_count(s)
}

/// Relies on rand's `thread_rng().gen_range(0..n)`, a draw from `0..n`; it
/// panics only on an empty range, which the precondition excludes.
#[verifier::external_body]
fn random_index(n: usize) -> (r: usize)
    requires
        n > 0,
    ensures
        r < n,
{
    rand::thread_rng().gen_range(0..n)
}

/// The smallest repeat count, or `None` when there are no entries.
pub fn min_repeat_count(stats: &Vec<(u128, i64)>) -> (r: Option<i64>)
    ensures
        r == (if stats@.len() == 0 {
            None
        } else {
            Some(min_count(stats@))
        }),
{
    if stats.len() == 0 {
        return None;
    }
    let mut m = stats[0].1;
    let mut i: usize = 1;
    while i < stats.len()
        invariant
            1 <= i <= stats.len(),
            m == min_count(stats@.take(i as int)),
        decreases stats.len() - i,
    {
        assert(stats@.take(i + 1).drop_last() =~= stats@.take(i as int));
        if stats[i].1 < m {
            m = stats[i].1;
        }
        i += 1;
    }
    assert(stats@.take(i as int) =~= stats@);
    Some(m)
}

/// The ids of the least repeated notes, in the entries' order.
pub fn least_repeated(stats: &Vec<(u128, i64)>) -> (r: Vec<u128>)
    ensures
        r@ == candidates(stats@),
{
    let mut r: Vec<u128> = Vec::new();
    match min_repeat_count(stats) {
        None => {
            assert(candidates(stats@) == Seq::<u128>::empty());
            r
        },
        Some(m) => {
            let mut i: usize = 0;
            while i < stats.len()
                invariant
                    i <= stats.len(),
                    m == min_count(stats@),
                    r@ == ids_with_count(stats@.take(i as int), m),
                decreases stats.len() - i,
            {
                assert(stats@.take(i + 1).drop_last() =~= stats@.take(i as int));
                if stats[i].1 == m {
                    r.push(stats[i].0);
                }
                i += 1;
            }
            assert(stats@.take(i as int) =~= stats@);
            r
        },
    }
}

/// The least repeated note at position `draw` (taken modulo their number)
/// among the candidates.
pub fn pick_note_id(stats: &Vec<(u128, i64)>, draw: usize) -> (r: Result<u128, SelectionError>)
    ensures
        stats@.len() == 0 <==> r == Err::<u128, SelectionError>(SelectionError::EmptyCandidateSet),
        r is Ok ==> r->Ok_0 == candidates(stats@)[draw as int % candidates(stats@).len() as int],
{
    let cands = least_repeated(stats);
    proof {
        lemma_candidates_nonempty(stats@);
    }
    if cands.len() == 0 {
        return Err(SelectionError::EmptyCandidateSet);
    }
    Ok(cands[draw % cands.len()])
}

/// Picks one of the least repeated notes, each with the same chance.
pub fn get_remind_note_id(stats: &Vec<(u128, i64)>) -> (r: Result<u128, SelectionError>)
    ensures
        stats@.len() == 0 <==> r == Err::<u128, SelectionError>(SelectionError::EmptyCandidateSet),
        r is Ok ==> candidates(stats@).contains(r->Ok_0),
        r is Ok ==> is_least_repeated(stats@, r->Ok_0),
{
    let cands = least_repeated(stats);
    proof {
        lemma_candidates_nonempty(stats@);
    }
    if cands.len() == 0 {
        return Err(SelectionError::EmptyCandidateSet);
    }
    let index = random_index(cands.len());
    proof {
        lemma_ids_with_count_sound(stats@, min_count(stats@));
        assert(cands@[index as int] == candidates(stats@)[index as int]);
    }
    Ok(cands[index])
}

/// Where there are entries, there is at least one candidate.
pub proof fn lemma_candidates_nonempty(s: Seq<(u128, i64)>)
    ensures
        s.len() > 0 <==> candidates(s).len() > 0,
{
    lemma_min_count_attained(s);
    if s.len() > 0 {
        let k = choose|k: int| 0 <= k < s.len() && s[k].1 == min_count(s);
        lemma_ids_with_count_complete(s, min_count(s), k);
    } else {
        assert(candidates(s) == Seq::<u128>::empty());
    }
}

/// `min_count` is at most every count, and equals one of them.
pub proof fn lemma_min_count_attained(s: Seq<(u128, i64)>)
    ensures
        forall|i: int| 0 <= i < s.len() ==> min_count(s) <= #[trigger] s[i].1,
        s.len() > 0 ==> exists|i: int| 0 <= i < s.len() && s[i].1 == min_count(s),
    decreases s.len(),
{
    if s.len() > 1 {
        let p = s.drop_last();
        lemma_min_count_attained(p);
        assert forall|i: int| 0 <= i < s.len() implies min_count(s) <= #[trigger] s[i].1 by {
            if i < s.len() - 1 {
                assert(s[i] == p[i]);
            }
        }
        if s.last().1 < min_count(p) {
            assert(s[s.len() - 1].1 == min_count(s));
        } else {
            let k = choose|k: int| 0 <= k < p.len() && p[k].1 == min_count(p);
            assert(s[k] == p[k]);
        }
    } else if s.len() == 1 {
        assert(s[0].1 == min_count(s));
    }
}

/// Every id in `ids_with_count(s, c)` comes from an entry of count `c`.
pub proof fn lemma_ids_with_count_sound(s: Seq<(u128, i64)>, c: i64)
    ensures
        forall|k: int|
            0 <= k < ids_with_count(s, c).len() ==> exists|i: int|
                0 <= i < s.len() && s[i].0 == #[trigger] ids_with_count(s, c)[k] && s[i].1 == c,
    decreases s.len(),
{
    if s.len() > 0 {
        let p = s.drop_last();
        lemma_ids_with_count_sound(p, c);
        let r = ids_with_count(p, c);
        assert forall|k: int|
            0 <= k < ids_with_count(s, c).len() implies exists|i: int|
                0 <= i < s.len() && s[i].0 == #[trigger] ids_with_count(s, c)[k] && s[i].1 == c by {
            if k < r.len() {
                assert(ids_with_count(s, c)[k] == r[k]);
                let i = choose|i: int| 0 <= i < p.len() && p[i].0 == r[k] && p[i].1 == c;
                assert(s[i] == p[i]);
            } else {
                assert(s[s.len() - 1].0 == ids_with_count(s, c)[k]);
            }
        }
    }
}

/// Every entry of count `c` has its id in `ids_with_count(s, c)`.
pub proof fn lemma_ids_with_count_complete(s: Seq<(u128, i64)>, c: i64, i: int)
    requires
        0 <= i < s.len(),
        s[i].1 == c,
    ensures
        ids_with_count(s, c).contains(s[i].0),
    decreases s.len(),
{
    let p = s.drop_last();
    if i == s.len() - 1 {
        assert(ids_with_count(s, c).last() == s[i].0);
    } else {
        assert(p[i] == s[i]);
        lemma_ids_with_count_complete(p, c, i);
        let k = choose|k: int| 0 <= k < ids_with_count(p, c).len() && ids_with_count(p, c)[k] == s[i].0;
        if s.last().1 == c {
            assert(ids_with_count(s, c)[k] == s[i].0);
        }
    }
}

/// On any non-empty statistics, every note the engine may return is one of
/// the entries, its count is the minimum, and no entry has a smaller count.
pub proof fn lemma_selected_is_least_repeated(s: Seq<(u128, i64)>)
    requires
        s.len() > 0,
    ensures
        candidates(s).len() > 0,
        forall|id: u128| #[trigger] candidates(s).contains(id) ==> is_least_repeated(s, id),
        forall|i: int| 0 <= i < s.len() ==> min_count(s) <= #[trigger] s[i].1,
{
    lemma_candidates_nonempty(s);
    lemma_min_count_attained(s);
    lemma_ids_with_count_sound(s, min_count(s));
    assert forall|id: u128| #[trigger] candidates(s).contains(id) implies is_least_repeated(
        s,
        id,
    ) by {
        let k = choose|k: int| 0 <= k < candidates(s).len() && candidates(s)[k] == id;
        assert(candidates(s)[k] == id);
    }
}

/// Where one entry alone has the smallest count, it is the only candidate, so
/// the engine returns it whatever the random draw.
pub proof fn lemma_single_least_is_determined(s: Seq<(u128, i64)>, k: int)
    requires
        0 <= k < s.len(),
        forall|j: int| 0 <= j < s.len() && j != k ==> s[j].1 > #[trigger] s[k].1,
    ensures
        candidates(s) == seq![s[k].0],
        forall|draw: int| 0 <= draw ==> #[trigger] candidates(s)[draw % candidates(s).len() as int] == s[k].0,
{
    lemma_min_count_attained(s);
    let w = choose|i: int| 0 <= i < s.len() && s[i].1 == min_count(s);
    if w != k {
        assert(s[w].1 > s[k].1);
        assert(min_count(s) <= s[k].1);
    }
    assert(min_count(s) == s[k].1);
    lemma_ids_with_count_single(s, s[k].1, k);
    assert forall|draw: int| 0 <= draw implies #[trigger] candidates(s)[draw % candidates(s).len() as int] == s[k].0 by {
        assert(draw % 1 == 0);
    }
}

proof fn lemma_ids_with_count_single(s: Seq<(u128, i64)>, c: i64, k: int)
    requires
        0 <= k < s.len(),
        s[k].1 == c,
        forall|j: int| 0 <= j < s.len() && j != k ==> #[trigger] s[j].1 != c,
    ensures
        ids_with_count(s, c) == seq![s[k].0],
    decreases s.len(),
{
    let p = s.drop_last();
    if k == s.len() - 1 {
        lemma_ids_with_count_none(p, c);
    } else {
        assert forall|j: int| 0 <= j < p.len() && j != k implies #[trigger] p[j].1 != c by {
            assert(p[j] == s[j]);
        }
        assert(p[k] == s[k]);
        lemma_ids_with_count_single(p, c, k);
        assert(s[s.len() - 1].1 != c);
    }
}

proof fn lemma_ids_with_count_none(s: Seq<(u128, i64)>, c: i64)
    requires
        forall|j: int| 0 <= j < s.len() ==> #[trigger] s[j].1 != c,
    ensures
        ids_with_count(s, c) == Seq::<u128>::empty(),
    decreases s.len(),
{
    if s.len() > 0 {
        let p = s.drop_last();
        assert forall|j: int| 0 <= j < p.len() implies #[trigger] p[j].1 != c by {
            assert(p[j] == s[j]);
        }
        lemma_ids_with_count_none(p, c);
        assert(s[s.len() - 1].1 != c);
    }
}

} // verus!
