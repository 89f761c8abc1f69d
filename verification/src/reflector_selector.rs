use vstd::prelude::*;
use crate::baseliner::{owd_bounded, OwdMap, ReflectorStats};
use crate::rng::random_u64;
use crate::utils::lemma_swap_multiset;

verus! {

broadcast use {vstd::std_specs::hash::group_hash_axioms, vstd::seq_lib::group_to_multiset_ensures};

/// How many random candidates each cycle mixes into the peer set.
pub const CANDIDATES_PER_CYCLE: usize = 19;

/// A reflector under consideration, ranked by its measured round trip
/// (the sum of the two recent one-way EWMAs, in scaled units; negative
/// sums, which only clock skew can produce, rank as zero).
#[derive(Clone, Copy, Debug, PartialEq, Eq, Structural)]
pub struct Candidate {
    pub peer: u128,
    pub rtt: u64,
}

/// A candidate's round trip: the recent EWMAs of both directions, floored
/// at zero.
pub open spec fn spec_rtt(s: ReflectorStats) -> u64 {
    if s.down_ewma + s.up_ewma < 0 {
        0u64
    } else {
        (s.down_ewma + s.up_ewma) as u64
    }
}

/// The candidates a ranking pass produces: every peer with a recent record,
/// in peer order, tagged with its round trip.
pub open spec fn candidates_of(peers: Seq<u128>, r: Map<u128, ReflectorStats>) -> Seq<Candidate>
    decreases peers.len(),
{
    if peers.len() == 0 {
        Seq::empty()
    } else {
        let rest = candidates_of(peers.drop_last(), r);
        let k = peers.last();
        if r.contains_key(k) {
            rest.push(Candidate { peer: k, rtt: spec_rtt(r[k]) })
        } else {
            rest
        }
    }
}

/// Every ranked candidate is one of the peers, has a recent record, and
/// carries exactly that record's round trip.
proof fn lemma_candidates_membership(peers: Seq<u128>, r: Map<u128, ReflectorStats>)
    ensures
        forall|i: int|
            0 <= i < candidates_of(peers, r).len() ==> {
                &&& r.contains_key((#[trigger] candidates_of(peers, r)[i]).peer)
                &&& peers.contains(candidates_of(peers, r)[i].peer)
                &&& candidates_of(peers, r)[i].rtt == spec_rtt(
                    r[candidates_of(peers, r)[i].peer],
                )
            },
    decreases peers.len(),
{
    if peers.len() > 0 {
        lemma_candidates_membership(peers.drop_last(), r);
        assert forall|i: int| 0 <= i < candidates_of(peers, r).len() implies {
            &&& r.contains_key((#[trigger] candidates_of(peers, r)[i]).peer)
            &&& peers.contains(candidates_of(peers, r)[i].peer)
            &&& candidates_of(peers, r)[i].rtt == spec_rtt(r[candidates_of(peers, r)[i].peer])
        } by {
            let c = candidates_of(peers, r)[i];
            let rest = candidates_of(peers.drop_last(), r);
            if i < rest.len() {
                let p = rest[i].peer;
                let j = choose|j: int| 0 <= j < peers.drop_last().len() && peers.drop_last()[j] == p;
                assert(peers[j] == p);
            } else {
                assert(peers[peers.len() - 1] == c.peer);
            }
        }
    }
}

/// Sorted ascending by round trip.
pub open spec fn sorted_by_rtt(s: Seq<Candidate>) -> bool {
    forall|a: int, b: int| 0 <= a < b < s.len() ==> s[a].rtt <= s[b].rtt
}

/// The ranked candidates whose round trip is strictly below `rtt`.
pub open spec fn faster_candidates(
    peers: Seq<u128>,
    r: Map<u128, ReflectorStats>,
    rtt: u64,
) -> Seq<Candidate> {
    candidates_of(peers, r).filter(|x: Candidate| x.rtt < rtt)
}

/// Taking one element out of a sequence takes exactly its own contribution
/// out of a filtered length.
proof fn lemma_filter_len_remove(s: Seq<Candidate>, j: int, pred: spec_fn(Candidate) -> bool)
    requires
        0 <= j < s.len(),
    ensures
        s.filter(pred).len() == s.remove(j).filter(pred).len() + (if pred(s[j]) {
            1int
        } else {
            0int
        }),
{
    let pre = s.subrange(0, j);
    let mid = seq![s[j]];
    let post = s.subrange(j + 1, s.len() as int);
    assert(s =~= (pre + mid) + post);
    assert(s.remove(j) =~= pre + post);
    Seq::filter_distributes_over_add(pre + mid, post, pred);
    Seq::filter_distributes_over_add(pre, mid, pred);
    Seq::filter_distributes_over_add(pre, post, pred);
    assert(mid.filter(pred).len() == if pred(s[j]) {
        1int
    } else {
        0int
    }) by {
        reveal_with_fuel(Seq::filter, 2);
        assert(mid.drop_last() =~= Seq::<Candidate>::empty());
    }
}

/// Sequences with the same multiset of elements agree on every filtered
/// length: a permutation neither adds nor loses matches.
proof fn lemma_filter_len_multiset(
    s1: Seq<Candidate>,
    s2: Seq<Candidate>,
    pred: spec_fn(Candidate) -> bool,
)
    requires
        s1.to_multiset() == s2.to_multiset(),
    ensures
        s1.filter(pred).len() == s2.filter(pred).len(),
    decreases s1.len(),
{
    broadcast use vstd::seq_lib::group_to_multiset_ensures;

    if s1.len() == 0 {
        assert(s1.to_multiset().len() == 0);
        assert(s2.to_multiset().len() == 0);
        assert(s2.len() == 0);
        Seq::lemma_filter_len(s1, pred);
        Seq::lemma_filter_len(s2, pred);
    } else {
        let a = s1.last();
        let last = s1.len() - 1;
        assert(s1.contains(a));
        assert(s2.to_multiset().count(a) > 0);
        assert(s2.contains(a));
        let j = choose|j: int| 0 <= j < s2.len() && s2[j] == a;
        lemma_filter_len_remove(s1, last, pred);
        lemma_filter_len_remove(s2, j, pred);
        assert(s1.remove(last).to_multiset() == s2.remove(j).to_multiset());
        lemma_filter_len_multiset(s1.remove(last), s2.remove(j), pred);
    }
}

/// When everything from position `j` onward fails the predicate, at most `j`
/// elements can pass it.
proof fn lemma_filter_len_prefix_bound(s: Seq<Candidate>, j: int, pred: spec_fn(Candidate) -> bool)
    requires
        0 <= j,
        forall|i: int| j <= i < s.len() ==> !pred(#[trigger] s[i]),
    ensures
        s.filter(pred).len() <= j,
    decreases s.len(),
{
    if s.len() <= j {
        Seq::lemma_filter_len(s, pred);
    } else {
        assert(!pred(s[s.len() - 1]));
        assert(s.filter(pred) == s.drop_last().filter(pred)) by {
            reveal_with_fuel(Seq::filter, 1);
        }
        lemma_filter_len_prefix_bound(s.drop_last(), j, pred);
    }
}

/// Sort candidates by round trip (insertion sort), keeping the multiset.
fn sort_candidates(v: &mut Vec<Candidate>)
    ensures
        sorted_by_rtt(final(v)@),
        final(v)@.to_multiset() == old(v)@.to_multiset(),
        final(v)@.len() == old(v)@.len(),
{
    let ghost orig = v@;
    let mut i: usize = 1;
    while i < v.len()
        invariant
            1 <= i,
            v@.len() == orig.len(),
            i <= v@.len() || v@.len() <= 1,
            v@.to_multiset() == orig.to_multiset(),
            forall|a: int, b: int| 0 <= a < b < i && b < v@.len() ==> v@[a].rtt <= v@[b].rtt,
        decreases v@.len() - i,
    {
        let mut j: usize = i;
        while j > 0 && v[j - 1].rtt > v[j].rtt
            invariant
                0 <= j <= i < v@.len(),
                v@.len() == orig.len(),
                v@.to_multiset() == orig.to_multiset(),
                forall|a: int, b: int| 0 <= a < b <= i && b != j ==> v@[a].rtt <= v@[b].rtt,
            decreases j,
        {
            let ghost before = v@;
            let hi = v[j - 1];
            let lo = v[j];
            v[j - 1] = lo;
            v[j] = hi;
            proof {
                assert(v@ =~= before.update(j - 1, before[j as int]).update(
                    j as int,
                    before[j - 1],
                ));
                lemma_swap_multiset(before, j - 1, j as int);
            }
            j = j - 1;
        }
        i = i + 1;
    }
}

/// Fisher–Yates shuffle, so a fleet of routers does not converge on the
/// same globally fastest reflectors. Keeps the multiset of candidates.
fn shuffle_candidates(v: &mut Vec<Candidate>)
    ensures
        final(v)@.to_multiset() == old(v)@.to_multiset(),
        final(v)@.len() == old(v)@.len(),
{
    let ghost orig = v@;
    if v.len() < 2 {
        return ;
    }
    let mut i: usize = v.len() - 1;
    while i >= 1
        invariant
            i < v@.len(),
            i + 1 <= usize::MAX,
            v@.len() == orig.len(),
            v@.to_multiset() == orig.to_multiset(),
        decreases i,
    {
        let w = random_u64();
        let j: usize = (w % ((i + 1) as u64)) as usize;
        let ghost before = v@;
        let a = v[i];
        let b = v[j];
        v[i] = b;
        v[j] = a;
        proof {
            assert(v@ =~= before.update(i as int, before[j as int]).update(
                j as int,
                before[i as int],
            ));
            lemma_swap_multiset(before, i as int, j as int);
        }
        i = i - 1;
    }
}

/// The selector: the full candidate pool it may draw from and the number of
/// peers it aims to keep active.
pub struct ReflectorSelector {
    pub reflector_pool: Vec<u128>,
    pub num_reflectors: u8,
}

impl ReflectorSelector {
    /// The first half of a cycle: the current peers plus random pool members
    /// (drawn with replacement), for re-baselining before ranking.
    pub fn expand_peers(&self, current: &Vec<u128>) -> (r: Vec<u128>)
        requires
            self.reflector_pool@.len() >= 1,
            current@.len() + CANDIDATES_PER_CYCLE <= usize::MAX,
        ensures
            r@.len() == current@.len() + CANDIDATES_PER_CYCLE,
            r@.subrange(0, current@.len() as int) =~= current@,
            forall|i: int|
                current@.len() <= i < r@.len() ==> self.reflector_pool@.contains(#[trigger] r@[i]),
    {
        let mut next_peers: Vec<u128> = Vec::new();
        let mut i: usize = 0;
        while i < current.len()
            invariant
                i <= current@.len(),
                next_peers@ =~= current@.subrange(0, i as int),
            decreases current@.len() - i,
        {
            next_peers.push(current[i]);
            i = i + 1;
        }
        proof {
            assert(next_peers@ =~= current@);
        }
        let mut k: usize = 0;
        while k < CANDIDATES_PER_CYCLE
            invariant
                k <= CANDIDATES_PER_CYCLE,
                self.reflector_pool@.len() >= 1,
                current@.len() + CANDIDATES_PER_CYCLE <= usize::MAX,
                next_peers@.len() == current@.len() + k,
                next_peers@.subrange(0, current@.len() as int) =~= current@,
                forall|i: int|
                    current@.len() <= i < next_peers@.len() ==> self.reflector_pool@.contains(
                        #[trigger] next_peers@[i],
                    ),
            decreases CANDIDATES_PER_CYCLE - k,
        {
            let w = random_u64();
            let idx: usize = (w % (self.reflector_pool.len() as u64)) as usize;
            let pick = self.reflector_pool[idx];
            next_peers.push(pick);
            k = k + 1;
        }
        next_peers
    }

    /// The second half of a cycle, after the re-baselining pause: rank every
    /// expanded peer that has a recent record by round trip, keep the
    /// `2 * num_reflectors` fastest, shuffle them, and take the first
    /// `num_reflectors`. The result never exceeds the target count nor the
    /// number of measurable candidates.
    pub fn choose_peers(&self, next_peers: &Vec<u128>, owd_recent: &OwdMap) -> (r: Vec<u128>)
        requires
            owd_bounded(owd_recent@),
        ensures
            ({
                let available = candidates_of(next_peers@, owd_recent@).len();
                r@.len() == if (self.num_reflectors as int) <= available {
                    self.num_reflectors as int
                } else {
                    available as int
                }
            }),
            r@.len() <= self.num_reflectors,
            forall|i: int|
                0 <= i < r@.len() ==> {
                    &&& owd_recent@.contains_key(#[trigger] r@[i])
                    &&& next_peers@.contains(r@[i])
                },
            // every survivor is among the 2 * num_reflectors fastest: fewer
            // than that many ranked candidates beat its round trip
            forall|i: int|
                0 <= i < r@.len() ==> faster_candidates(
                    next_peers@,
                    owd_recent@,
                    spec_rtt(owd_recent@[#[trigger] r@[i]]),
                ).len() < 2 * (self.num_reflectors as int),
    {
        let ghost full = candidates_of(next_peers@, owd_recent@);
        let mut candidates: Vec<Candidate> = Vec::new();
        let mut i: usize = 0;
        proof {
            assert(next_peers@.subrange(0, 0) =~= Seq::<u128>::empty());
        }
        while i < next_peers.len()
            invariant
                i <= next_peers@.len(),
                owd_bounded(owd_recent@),
                candidates@ == candidates_of(next_peers@.subrange(0, i as int), owd_recent@),
            decreases next_peers@.len() - i,
        {
            let k = next_peers[i];
            match owd_recent.get(&k) {
                Some(rs) => {
                    let sum = rs.down_ewma + rs.up_ewma;
                    let rtt: u64 = if sum < 0 {
                        0
                    } else {
                        sum as u64
                    };
                    candidates.push(Candidate { peer: k, rtt });
                },
                None => {},
            }
            proof {
                let pre = next_peers@.subrange(0, i as int);
                let cur = next_peers@.subrange(0, i + 1);
                assert(cur.drop_last() =~= pre);
                assert(cur.last() == next_peers@[i as int]);
            }
            i = i + 1;
        }
        proof {
            assert(next_peers@.subrange(0, next_peers@.len() as int) =~= next_peers@);
            lemma_candidates_membership(next_peers@, owd_recent@);
        }
        sort_candidates(&mut candidates);
        let ghost sorted_seq = candidates@;
        let pool_cap: usize = 2 * (self.num_reflectors as usize);
        candidates.truncate(pool_cap);
        let ghost truncated = candidates@;
        shuffle_candidates(&mut candidates);
        let take: usize = if (self.num_reflectors as usize) < candidates.len() {
            self.num_reflectors as usize
        } else {
            candidates.len()
        };
        let ghost shuffled = candidates@;
        proof {
            assert forall|i: int| 0 <= i < shuffled.len() implies {
                &&& owd_recent@.contains_key((#[trigger] shuffled[i]).peer)
                &&& next_peers@.contains(shuffled[i].peer)
                &&& shuffled[i].rtt == spec_rtt(owd_recent@[shuffled[i].peer])
                &&& faster_candidates(next_peers@, owd_recent@, shuffled[i].rtt).len() < 2 * (
                self.num_reflectors as int)
            } by {
                let c = shuffled[i];
                assert(shuffled.contains(c));
                assert(shuffled.to_multiset().contains(c));
                assert(truncated.to_multiset().contains(c));
                assert(truncated.contains(c));
                let j = choose|j: int| 0 <= j < truncated.len() && truncated[j] == c;
                assert(sorted_seq[j] == c);
                assert(sorted_seq.contains(c));
                assert(sorted_seq.to_multiset().contains(c));
                assert(full.to_multiset().contains(c));
                assert(full.contains(c));
                let m = choose|m: int| 0 <= m < full.len() && full[m] == c;
                // in the sorted ranking, everything at or past c's position
                // is at least as slow, so fewer than 2n candidates beat it
                let pred = |x: Candidate| x.rtt < c.rtt;
                assert forall|idx: int| j <= idx < sorted_seq.len() implies !pred(
                    #[trigger] sorted_seq[idx],
                ) by {
                    assert(sorted_seq[j].rtt <= sorted_seq[idx].rtt);
                }
                lemma_filter_len_prefix_bound(sorted_seq, j, pred);
                lemma_filter_len_multiset(full, sorted_seq, pred);
                assert(faster_candidates(next_peers@, owd_recent@, c.rtt) == full.filter(pred));
            }
        }
        let mut new_peers: Vec<u128> = Vec::new();
        let mut t: usize = 0;
        while t < take
            invariant
                t <= take,
                take <= candidates@.len(),
                candidates@ == shuffled,
                new_peers@.len() == t,
                forall|i: int|
                    0 <= i < shuffled.len() ==> {
                        &&& owd_recent@.contains_key((#[trigger] shuffled[i]).peer)
                        &&& next_peers@.contains(shuffled[i].peer)
                        &&& shuffled[i].rtt == spec_rtt(owd_recent@[shuffled[i].peer])
                        &&& faster_candidates(next_peers@, owd_recent@, shuffled[i].rtt).len() < 2
                            * (self.num_reflectors as int)
                    },
                forall|i: int| 0 <= i < t ==> #[trigger] new_peers@[i] == shuffled[i].peer,
            decreases take - t,
        {
            new_peers.push(candidates[t].peer);
            t = t + 1;
        }
        new_peers
    }
}

} // verus!
