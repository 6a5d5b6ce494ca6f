//! Accumulation of byte totals by owning UID, from a flat sequence of
//! traversed entries, with the proofs that the totals conserve the scanned
//! bytes and that only regular files contribute.

use vstd::prelude::*;

verus! {

broadcast use vstd::seq_lib::group_to_multiset_ensures;

/// What kind of filesystem object a traversed entry is.
#[derive(Clone, Copy, Debug, PartialEq, Eq, Structural)]
pub enum EntryKind {
    File,
    Directory,
    Symlink,
    Other,
}

/// One traversed entry, reduced to what aggregation reads: the owner, the
/// byte size, and the kind that decides whether the entry counts.
#[derive(Clone, Copy, Debug, PartialEq, Eq, Structural)]
pub struct RawEntry {
    pub uid: u32,
    pub size: u64,
    pub kind: EntryKind,
}

/// The bytes an entry contributes overall: its size when it is a regular
/// file, nothing otherwise.
pub open spec fn contribution(e: RawEntry) -> int {
    if e.kind is File {
        e.size as int
    } else {
        0
    }
}

/// The bytes an entry contributes to one UID's total.
pub open spec fn uid_contribution(e: RawEntry, uid: u32) -> int {
    if e.kind is File && e.uid == uid {
        e.size as int
    } else {
        0
    }
}

/// The byte total of all regular files among the entries.
pub open spec fn file_total(es: Seq<RawEntry>) -> int
    decreases es.len(),
{
    if es.len() == 0 {
        0
    } else {
        file_total(es.drop_last()) + contribution(es.last())
    }
}

/// The byte total of the regular files among the entries that one UID owns.
pub open spec fn uid_total(es: Seq<RawEntry>, uid: u32) -> int
    decreases es.len(),
{
    if es.len() == 0 {
        0
    } else {
        uid_total(es.drop_last(), uid) + uid_contribution(es.last(), uid)
    }
}

/// Whether some regular file among the entries is owned by the UID.
pub open spec fn has_file_for(es: Seq<RawEntry>, uid: u32) -> bool {
    exists|i: int| 0 <= i < es.len() && es[i].kind is File && es[i].uid == uid
}

/// The sum of the totals held in a sequence of (UID, total) pairs.
pub open spec fn pair_sum(s: Seq<(u32, u64)>) -> int
    decreases s.len(),
{
    if s.len() == 0 {
        0
    } else {
        pair_sum(s.drop_last()) + s.last().1
    }
}

/// The total a sequence of (UID, total) pairs holds for one UID.
pub open spec fn spec_total(s: Seq<(u32, u64)>, uid: u32) -> int
    decreases s.len(),
{
    if s.len() == 0 {
        0
    } else {
        spec_total(s.drop_last(), uid) + if s.last().0 == uid {
            s.last().1 as int
        } else {
            0
        }
    }
}

/// Whether a sequence of (UID, total) pairs holds the UID.
pub open spec fn has_uid(s: Seq<(u32, u64)>, uid: u32) -> bool {
    exists|i: int| 0 <= i < s.len() && s[i].0 == uid
}

/// Each UID appears at most once.
pub open spec fn wf_pairs(s: Seq<(u32, u64)>) -> bool {
    forall|i: int, j: int| 0 <= i < j < s.len() ==> s[i].0 != s[j].0
}

/// One UID's total never exceeds the total over all regular files.
pub proof fn lemma_uid_total_le_file_total(es: Seq<RawEntry>, uid: u32)
    ensures
        uid_total(es, uid) <= file_total(es),
    decreases es.len(),
{
    if es.len() > 0 {
        lemma_uid_total_le_file_total(es.drop_last(), uid);
    }
}

/// Extending a prefix by one entry extends every total by that entry's
/// contribution.
pub(crate) proof fn lemma_totals_take_succ(es: Seq<RawEntry>, i: int)
    requires
        0 <= i < es.len(),
    ensures
        file_total(es.take(i + 1)) == file_total(es.take(i)) + contribution(es[i]),
        forall|u: u32|
            uid_total(es.take(i + 1), u) == uid_total(es.take(i), u) + uid_contribution(es[i], u),
{
    assert(es.take(i + 1).drop_last() =~= es.take(i));
    assert(es.take(i + 1).last() == es[i]);
}

pub(crate) proof fn lemma_file_total_take_monotone(es: Seq<RawEntry>, i: int)
    requires
        0 <= i <= es.len(),
    ensures
        file_total(es.take(i)) <= file_total(es),
    decreases es.len() - i,
{
    if i == es.len() {
        assert(es.take(i) =~= es);
    } else {
        lemma_totals_take_succ(es, i);
        lemma_file_total_take_monotone(es, i + 1);
    }
}

proof fn lemma_uid_total_take_monotone(es: Seq<RawEntry>, i: int, uid: u32)
    requires
        0 <= i <= es.len(),
    ensures
        uid_total(es.take(i), uid) <= uid_total(es, uid),
    decreases es.len() - i,
{
    if i == es.len() {
        assert(es.take(i) =~= es);
    } else {
        lemma_totals_take_succ(es, i);
        lemma_uid_total_take_monotone(es, i + 1, uid);
    }
}

/// Entries that are not regular files — directories, symbolic links, sockets,
/// devices and the rest — contribute nothing to any total.
pub proof fn lemma_non_file_contributes_nothing(es: Seq<RawEntry>, e: RawEntry)
    requires
        !(e.kind is File),
    ensures
        file_total(es.push(e)) == file_total(es),
        forall|u: u32| uid_total(es.push(e), u) == uid_total(es, u),
        forall|u: u32| has_file_for(es.push(e), u) <==> has_file_for(es, u),
{
    assert(es.push(e).drop_last() =~= es);
    assert(es.push(e).last() == e);
    assert forall|u: u32| has_file_for(es.push(e), u) <==> has_file_for(es, u) by {
        if has_file_for(es.push(e), u) {
            let i = choose|i: int|
                0 <= i < es.push(e).len() && es.push(e)[i].kind is File && es.push(e)[i].uid == u;
            assert(i < es.len() && es[i].kind is File && es[i].uid == u);
        }
        if has_file_for(es, u) {
            let i = choose|i: int| 0 <= i < es.len() && es[i].kind is File && es[i].uid == u;
            assert(es.push(e)[i].kind is File && es.push(e)[i].uid == u);
        }
    }
}

/// A sequence of pairs in which a UID does not occur holds zero for it.
proof fn lemma_spec_total_absent(s: Seq<(u32, u64)>, uid: u32)
    requires
        forall|j: int| 0 <= j < s.len() ==> s[j].0 != uid,
    ensures
        spec_total(s, uid) == 0,
    decreases s.len(),
{
    if s.len() > 0 {
        lemma_spec_total_absent(s.drop_last(), uid);
    }
}

/// Under unique UIDs, the total held for a UID is the value stored beside it.
proof fn lemma_spec_total_at(s: Seq<(u32, u64)>, i: int)
    requires
        wf_pairs(s),
        0 <= i < s.len(),
    ensures
        spec_total(s, s[i].0) == s[i].1,
    decreases s.len(),
{
    if i == s.len() - 1 {
        assert(forall|j: int| 0 <= j < s.drop_last().len() ==> s.drop_last()[j].0 != s[i].0);
        lemma_spec_total_absent(s.drop_last(), s[i].0);
    } else {
        lemma_spec_total_at(s.drop_last(), i);
    }
}

proof fn lemma_spec_total_update(s: Seq<(u32, u64)>, i: int, p: (u32, u64), u: u32)
    requires
        0 <= i < s.len(),
    ensures
        spec_total(s.update(i, p), u) == spec_total(s, u) - (if s[i].0 == u {
            s[i].1 as int
        } else {
            0
        }) + (if p.0 == u {
            p.1 as int
        } else {
            0
        }),
    decreases s.len(),
{
    if i == s.len() - 1 {
        assert(s.update(i, p).drop_last() =~= s.drop_last());
        assert(s.update(i, p).last() == p);
    } else {
        assert(s.update(i, p).drop_last() =~= s.drop_last().update(i, p));
        assert(s.update(i, p).last() == s.last());
        lemma_spec_total_update(s.drop_last(), i, p, u);
    }
}

proof fn lemma_pair_sum_update(s: Seq<(u32, u64)>, i: int, p: (u32, u64))
    requires
        0 <= i < s.len(),
    ensures
        pair_sum(s.update(i, p)) == pair_sum(s) - s[i].1 + p.1,
    decreases s.len(),
{
    if i == s.len() - 1 {
        assert(s.update(i, p).drop_last() =~= s.drop_last());
        assert(s.update(i, p).last() == p);
    } else {
        assert(s.update(i, p).drop_last() =~= s.drop_last().update(i, p));
        assert(s.update(i, p).last() == s.last());
        lemma_pair_sum_update(s.drop_last(), i, p);
    }
}

/// Two sequences with the same UID at every position hold the same UIDs.
proof fn lemma_same_uids_has(s1: Seq<(u32, u64)>, s2: Seq<(u32, u64)>)
    requires
        s1.len() == s2.len(),
        forall|j: int| 0 <= j < s1.len() ==> s1[j].0 == s2[j].0,
    ensures
        forall|u: u32| has_uid(s1, u) <==> has_uid(s2, u),
{
    assert forall|u: u32| has_uid(s1, u) <==> has_uid(s2, u) by {
        if has_uid(s1, u) {
            let j = choose|j: int| 0 <= j < s1.len() && s1[j].0 == u;
            assert(s2[j].0 == u);
        }
        if has_uid(s2, u) {
            let j = choose|j: int| 0 <= j < s2.len() && s2[j].0 == u;
            assert(s1[j].0 == u);
        }
    }
}

proof fn lemma_pair_sum_remove(s: Seq<(u32, u64)>, j: int)
    requires
        0 <= j < s.len(),
    ensures
        pair_sum(s) == pair_sum(s.remove(j)) + s[j].1,
    decreases s.len(),
{
    if j == s.len() - 1 {
        assert(s.remove(j) =~= s.drop_last());
    } else {
        assert(s.remove(j).drop_last() =~= s.drop_last().remove(j));
        assert(s.remove(j).last() == s.last());
        lemma_pair_sum_remove(s.drop_last(), j);
    }
}

/// Reordering a sequence of pairs does not change the sum of its totals.
pub proof fn lemma_pair_sum_permutation(a: Seq<(u32, u64)>, b: Seq<(u32, u64)>)
    requires
        a.to_multiset() == b.to_multiset(),
    ensures
        pair_sum(a) == pair_sum(b),
    decreases a.len(),
{
    if a.len() == 0 {
        assert(b.to_multiset().len() == 0);
        assert(b.len() == 0);
    } else {
        let x = a.last();
        assert(a.contains(x));
        assert(b.to_multiset().count(x) > 0);
        assert(b.contains(x));
        let j = choose|j: int| 0 <= j < b.len() && b[j] == x;
        lemma_pair_sum_remove(b, j);
        assert(a.drop_last() =~= a.remove(a.len() - 1));
        assert(a.remove(a.len() - 1).to_multiset() =~= a.to_multiset().remove(x));
        assert(b.remove(j).to_multiset() =~= b.to_multiset().remove(x));
        lemma_pair_sum_permutation(a.drop_last(), b.remove(j));
    }
}

/// Reordering a sequence of pairs with unique UIDs keeps the UIDs unique, and
/// keeps each UID beside the same total.
pub proof fn lemma_wf_pairs_permutation(a: Seq<(u32, u64)>, b: Seq<(u32, u64)>)
    requires
        wf_pairs(a),
        a.to_multiset() == b.to_multiset(),
    ensures
        wf_pairs(b),
        forall|j: int| 0 <= j < b.len() ==> has_uid(a, b[j].0) && spec_total(a, b[j].0) == b[j].1,
        forall|u: u32| has_uid(a, u) ==> has_uid(b, u),
{
    assert forall|i: int, j: int|
        0 <= i < a.len() && 0 <= j < a.len() && i != j implies a[i] != a[j] by {
        if a[i] == a[j] {
            if i < j {
                assert(a[i].0 != a[j].0);
            } else {
                assert(a[j].0 != a[i].0);
            }
        }
    }
    assert(a.no_duplicates());
    a.lemma_multiset_has_no_duplicates();
    b.lemma_multiset_has_no_duplicates_conv();
    assert forall|j: int| 0 <= j < b.len() implies has_uid(a, b[j].0) && spec_total(a, b[j].0)
        == b[j].1 by {
        assert(b.contains(b[j]));
        assert(a.to_multiset().count(b[j]) > 0);
        assert(a.contains(b[j]));
        let k = choose|k: int| 0 <= k < a.len() && a[k] == b[j];
        lemma_spec_total_at(a, k);
    }
    assert forall|i: int, j: int| 0 <= i < j < b.len() implies b[i].0 != b[j].0 by {
        if b[i].0 == b[j].0 {
            assert(b.contains(b[i]));
            assert(b.contains(b[j]));
            assert(a.contains(b[i]));
            assert(a.contains(b[j]));
            let k = choose|k: int| 0 <= k < a.len() && a[k] == b[i];
            let l = choose|l: int| 0 <= l < a.len() && a[l] == b[j];
            if k == l {
                assert(b[i] == b[j]);
                assert(b.no_duplicates());
                assert(false);
            } else {
                assert(a[k].0 == a[l].0);
                assert(false);
            }
        }
    }
    assert forall|u: u32| has_uid(a, u) implies has_uid(b, u) by {
        let k = choose|k: int| 0 <= k < a.len() && a[k].0 == u;
        assert(a.contains(a[k]));
        assert(b.to_multiset().count(a[k]) > 0);
        assert(b.contains(a[k]));
        let j = choose|j: int| 0 <= j < b.len() && b[j] == a[k];
        assert(b[j].0 == u);
    }
}

/// The running totals by UID. Keys are unique; order is irrelevant and left
/// as insertion order.
pub struct Aggregate {
    pairs: Vec<(u32, u64)>,
}

impl View for Aggregate {
    type V = Seq<(u32, u64)>;

    closed spec fn view(&self) -> Seq<(u32, u64)> {
        self.pairs@
    }
}

impl Aggregate {
    /// Unique UIDs: the structural invariant every method preserves.
    pub open spec fn wf(self) -> bool {
        wf_pairs(self@)
    }

    /// The empty aggregate.
    pub fn new() -> (r: Aggregate)
        ensures
            r@ == Seq::<(u32, u64)>::empty(),
            r.wf(),
    {
        let r = Aggregate { pairs: Vec::new() };
        proof {
            assert(r@ =~= Seq::<(u32, u64)>::empty());
        }
        r
    }

    /// Adds one regular file's size to its owner's total, starting the total
    /// at zero for a UID not seen before.
    pub fn add(&mut self, uid: u32, size: u64)
        requires
            old(self).wf(),
            spec_total(old(self)@, uid) + size <= u64::MAX,
        ensures
            final(self).wf(),
            forall|u: u32|
                spec_total(final(self)@, u) == spec_total(old(self)@, u) + (if u == uid {
                    size as int
                } else {
                    0
                }),
            forall|u: u32| has_uid(final(self)@, u) <==> has_uid(old(self)@, u) || u == uid,
            pair_sum(final(self)@) == pair_sum(old(self)@) + size,
    {
        let ghost s0 = self.pairs@;
        let n = self.pairs.len();
        let mut i: usize = 0;
        while i < n
            invariant
                n == self.pairs.len(),
                0 <= i <= n,
                self.pairs@ == s0,
                s0 == old(self)@,
                wf_pairs(s0),
                spec_total(s0, uid) + size <= u64::MAX,
                forall|j: int| 0 <= j < i ==> s0[j].0 != uid,
            decreases n - i,
        {
            if self.pairs[i].0 == uid {
                let v = self.pairs[i].1;
                proof {
                    lemma_spec_total_at(s0, i as int);
                }
                self.pairs.set(i, (uid, v + size));
                proof {
                    let s1 = self.pairs@;
                    assert(s1 == s0.update(i as int, (uid, (v + size) as u64)));
                    assert forall|u: u32|
                        spec_total(s1, u) == spec_total(s0, u) + (if u == uid {
                            size as int
                        } else {
                            0
                        }) by {
                        lemma_spec_total_update(s0, i as int, (uid, (v + size) as u64), u);
                    }
                    lemma_pair_sum_update(s0, i as int, (uid, (v + size) as u64));
                    lemma_same_uids_has(s0, s1);
                    assert(has_uid(s0, uid));
                }
                return;
            }
            i = i + 1;
        }
        proof {
            lemma_spec_total_absent(s0, uid);
        }
        self.pairs.push((uid, size));
        proof {
            let s1 = self.pairs@;
            assert(s1 == s0.push((uid, size)));
            assert(s1.drop_last() =~= s0);
            assert forall|u: u32|
                spec_total(s1, u) == spec_total(s0, u) + (if u == uid {
                    size as int
                } else {
                    0
                }) by {
                assert(s1.drop_last() == s0);
            }
            assert forall|u: u32| has_uid(s1, u) <==> has_uid(s0, u) || u == uid by {
                if has_uid(s1, u) {
                    let j = choose|j: int| 0 <= j < s1.len() && s1[j].0 == u;
                    if j < s0.len() {
                        assert(s0[j].0 == u);
                    }
                }
                if has_uid(s0, u) {
                    let j = choose|j: int| 0 <= j < s0.len() && s0[j].0 == u;
                    assert(s1[j].0 == u);
                }
                if u == uid {
                    assert(s1[s0.len() as int].0 == u);
                }
            }
        }
    }

    /// Hands the accumulated (UID, total) pairs out for reporting.
    pub fn into_pairs(self) -> (r: Vec<(u32, u64)>)
        ensures
            r@ == self@,
    {
        self.pairs
    }
}

/// Builds the aggregate of a traversal: every regular file's size is added to
/// its owner's total, and nothing else counts. The resulting totals are
/// exactly the per-UID sums, a UID is present exactly when it owns some
/// regular file among the entries, and the grand total is conserved.
pub fn aggregate(entries: &Vec<RawEntry>) -> (r: Aggregate)
    requires
        file_total(entries@) <= u64::MAX,
    ensures
        r.wf(),
        forall|u: u32| spec_total(r@, u) == uid_total(entries@, u),
        forall|u: u32| has_uid(r@, u) <==> has_file_for(entries@, u),
        pair_sum(r@) == file_total(entries@),
{
    let mut agg = Aggregate::new();
    let n = entries.len();
    let mut i: usize = 0;
    proof {
        assert(entries@.take(0) =~= Seq::<RawEntry>::empty());
    }
    while i < n
        invariant
            n == entries.len(),
            0 <= i <= n,
            agg.wf(),
            file_total(entries@) <= u64::MAX,
            forall|u: u32| spec_total(agg@, u) == uid_total(entries@.take(i as int), u),
            forall|u: u32| has_uid(agg@, u) <==> has_file_for(entries@.take(i as int), u),
            pair_sum(agg@) == file_total(entries@.take(i as int)),
        decreases n - i,
    {
        let e = entries[i];
        proof {
            lemma_totals_take_succ(entries@, i as int);
            assert(entries@.take(i as int + 1) =~= entries@.take(i as int).push(entries@[i as int]));
        }
        match e.kind {
            EntryKind::File => {
                proof {
                    lemma_uid_total_take_monotone(entries@, i as int + 1, e.uid);
                    lemma_uid_total_le_file_total(entries@, e.uid);
                }
                agg.add(e.uid, e.size);
                proof {
                    let ghost t1 = entries@.take(i as int + 1);
                    assert forall|u: u32| has_uid(agg@, u) <==> has_file_for(t1, u) by {
                        if has_file_for(t1, u) {
                            let k = choose|k: int|
                                0 <= k < t1.len() && t1[k].kind is File && t1[k].uid == u;
                            if k < i as int {
                                assert(entries@.take(i as int)[k].kind is File);
                                assert(has_file_for(entries@.take(i as int), u));
                            } else {
                                assert(u == e.uid);
                            }
                        }
                        if has_uid(agg@, u) {
                            if u == e.uid {
                                assert(t1[i as int].kind is File && t1[i as int].uid == u);
                            } else {
                                let k = choose|k: int|
                                    0 <= k < entries@.take(i as int).len() && entries@.take(
                                        i as int,
                                    )[k].kind is File && entries@.take(i as int)[k].uid == u;
                                assert(t1[k].kind is File && t1[k].uid == u);
                            }
                        }
                    }
                }
            },
            _ => {
                proof {
                    let ghost t0 = entries@.take(i as int);
                    let ghost t1 = entries@.take(i as int + 1);
                    lemma_non_file_contributes_nothing(t0, e);
                    assert(t1 == t0.push(e));
                }
            },
        }
        i = i + 1;
    }
    proof {
        assert(entries@.take(n as int) =~= entries@);
    }
    agg
}

} // verus!
