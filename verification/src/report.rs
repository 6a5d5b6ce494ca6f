//! The report: totals ordered ascending, UIDs resolved to display names,
//! sizes rendered under the configured mode, one record per user.

use crate::aggregate::{
    aggregate, file_total, has_file_for, has_uid, lemma_file_total_take_monotone,
    lemma_pair_sum_permutation, lemma_totals_take_succ, lemma_wf_pairs_permutation, pair_sum,
    spec_total, uid_total, wf_pairs, EntryKind, RawEntry,
};
use crate::format::{dec_digits, spec_rendered, u64_to_string, SizeFormatter};
use itertools::Itertools;
use vstd::prelude::*;

verus! {

/// Relies on itertools's sorted_by_key, a stable ascending sort by the
/// extracted key: the result holds exactly the given pairs, ordered by
/// non-decreasing total.
#[verifier::external_body]
fn sort_pairs_by_total(v: Vec<(u32, u64)>) -> (r: Vec<(u32, u64)>)
    ensures
        r@.to_multiset() == v@.to_multiset(),
        forall|i: int, j: int| 0 <= i <= j < r@.len() ==> r@[i].1 <= r@[j].1,
{
    v.into_iter().sorted_by_key(|&(_, size)| size).collect()
}

/// Relies on users::get_user_by_uid, a lookup in the host's user database.
/// The outcome depends on the host's state, so nothing is promised of it.
#[verifier::external_body]
fn lookup_user_name(uid: u32) -> (r: Option<String>) {
    users::get_user_by_uid(uid).map(|u| u.name().to_string_lossy().into_owned())
}

/// The name under which a UID's total is reported, given what the user
/// database answered: the login name when the lookup produced one, else the
/// decimal UID.
pub open spec fn spec_display_name(uid: u32, looked: Option<Seq<char>>) -> Seq<char> {
    match looked {
        Some(n) => n,
        None => dec_digits(uid as nat),
    }
}

/// Turns a lookup outcome into the reported name: the looked-up name when
/// there is one, the decimal UID when there is none.
pub fn display_name(uid: u32, looked: Option<String>) -> (r: String)
    ensures
        looked matches Some(n) ==> r@ == n@,
        looked is None ==> r@ == dec_digits(uid as nat),
{
    match looked {
        Some(n) => n,
        None => u64_to_string(uid as u64),
    }
}

/// Resolves a UID against the host's user database and falls back to the
/// decimal UID. Whatever the host answers, the result is the display of some
/// lookup outcome.
pub fn resolve_name(uid: u32) -> (r: String)
    ensures
        exists|looked: Option<Seq<char>>| r@ == spec_display_name(uid, looked),
{
    let looked = lookup_user_name(uid);
    let ghost lview: Option<Seq<char>> = match &looked {
        Some(n) => Some(n@),
        None => None,
    };
    let r = display_name(uid, looked);
    proof {
        assert(r@ == spec_display_name(uid, lview));
    }
    r
}

/// One record of the report: a UID, its byte total, and the two strings the
/// line is made of.
pub struct UserLine {
    pub uid: u32,
    pub total: u64,
    pub formatted: String,
    pub name: String,
}

impl UserLine {
    /// The emitted text of the record: the formatted size, a tab, the name.
    pub fn render(&self) -> (r: String)
        ensures
            r@ == self.formatted@ + seq!['\t'] + self.name@,
    {
        let mut s = self.formatted.clone();
        s.append("\t");
        s.append(self.name.as_str());
        proof {
            reveal_strlit("\t");
            assert(s@ =~= self.formatted@ + seq!['\t'] + self.name@);
        }
        s
    }
}

/// A record's name is the display of some lookup outcome for its UID: either
/// a name the user database handed back, or the decimal UID.
pub open spec fn named_from_some_lookup(l: UserLine) -> bool {
    exists|looked: Option<Seq<char>>| l.name@ == spec_display_name(l.uid, looked)
}

/// Whether the report holds a record for the UID.
pub open spec fn has_line_for(s: Seq<UserLine>, uid: u32) -> bool {
    exists|i: int| 0 <= i < s.len() && s[i].uid == uid
}

/// The sum of the byte totals over a sequence of report records.
pub open spec fn line_total_sum(s: Seq<UserLine>) -> int
    decreases s.len(),
{
    if s.len() == 0 {
        0
    } else {
        line_total_sum(s.drop_last()) + s.last().total
    }
}

proof fn lemma_line_sum_matches(lines: Seq<UserLine>, pairs: Seq<(u32, u64)>)
    requires
        lines.len() == pairs.len(),
        forall|j: int| 0 <= j < lines.len() ==> lines[j].total == pairs[j].1,
    ensures
        line_total_sum(lines) == pair_sum(pairs),
    decreases lines.len(),
{
    if lines.len() > 0 {
        lemma_line_sum_matches(lines.drop_last(), pairs.drop_last());
    }
}

/// Builds the report of a traversal: one record per UID that owns a regular
/// file among the entries, carrying that UID's exact byte total, ordered by
/// non-decreasing total, the total rendered under the given formatter, and
/// named by the user database or by the decimal UID. The grand total of the
/// report equals the byte total of the regular files among the entries.
pub fn report(entries: &Vec<RawEntry>, formatter: &SizeFormatter) -> (r: Vec<UserLine>)
    requires
        file_total(entries@) <= u64::MAX,
    ensures
        forall|i: int| 0 <= i < r@.len() ==> r@[i].total == uid_total(entries@, r@[i].uid),
        forall|i: int| 0 <= i < r@.len() ==> has_file_for(entries@, r@[i].uid),
        forall|u: u32| has_file_for(entries@, u) ==> has_line_for(r@, u),
        forall|i: int, j: int| 0 <= i < j < r@.len() ==> r@[i].uid != r@[j].uid,
        forall|i: int, j: int| 0 <= i <= j < r@.len() ==> r@[i].total <= r@[j].total,
        line_total_sum(r@) == file_total(entries@),
        forall|i: int|
            0 <= i < r@.len() ==> r@[i].formatted@ == spec_rendered(
                formatter.mode,
                formatter.si,
                r@[i].total,
            ),
        forall|i: int| 0 <= i < r@.len() ==> named_from_some_lookup(#[trigger] r@[i]),
{
    let agg = aggregate(entries);
    let ghost aview = agg@;
    let pairs = agg.into_pairs();
    let sorted = sort_pairs_by_total(pairs);
    proof {
        lemma_pair_sum_permutation(aview, sorted@);
        lemma_wf_pairs_permutation(aview, sorted@);
    }
    let mut lines: Vec<UserLine> = Vec::new();
    let n = sorted.len();
    let mut i: usize = 0;
    while i < n
        invariant
            n == sorted.len(),
            0 <= i <= n,
            lines@.len() == i,
            wf_pairs(sorted@),
            forall|j: int|
                0 <= j < sorted@.len() ==> has_uid(aview, sorted@[j].0) && spec_total(
                    aview,
                    sorted@[j].0,
                ) == sorted@[j].1,
            forall|k: int, j: int| 0 <= k <= j < sorted@.len() ==> sorted@[k].1 <= sorted@[j].1,
            forall|j: int|
                0 <= j < i ==> lines@[j].uid == sorted@[j].0 && lines@[j].total == sorted@[j].1,
            forall|j: int|
                0 <= j < i ==> lines@[j].formatted@ == spec_rendered(
                    formatter.mode,
                    formatter.si,
                    lines@[j].total,
                ),
            forall|j: int| 0 <= j < i ==> named_from_some_lookup(#[trigger] lines@[j]),
        decreases n - i,
    {
        let (uid, total) = sorted[i];
        let name = resolve_name(uid);
        let formatted = formatter.wrap(total).render();
        lines.push(UserLine { uid, total, formatted, name });
        proof {
            let looked = choose|looked: Option<Seq<char>>|
                lines@.last().name@ == spec_display_name(uid, looked);
            assert(lines@.last().name@ == spec_display_name(lines@.last().uid, looked));
            assert(named_from_some_lookup(lines@.last()));
        }
        i = i + 1;
    }
    proof {
        lemma_line_sum_matches(lines@, sorted@);
        assert forall|u: u32| has_file_for(entries@, u) implies has_line_for(lines@, u) by {
            assert(has_uid(aview, u));
            assert(has_uid(sorted@, u));
            let j = choose|j: int| 0 <= j < sorted@.len() && sorted@[j].0 == u;
            assert(0 <= j < lines@.len() && lines@[j].uid == u);
        }
    }
    lines
}

/// Builds the report after checking that the grand byte total fits in 64
/// bits, declining exactly when it does not.
pub fn try_report(entries: &Vec<RawEntry>, formatter: &SizeFormatter) -> (r: Option<
    Vec<UserLine>,
>)
    ensures
        r is Some <==> file_total(entries@) <= u64::MAX,
        r matches Some(lines) ==> forall|i: int|
            0 <= i < lines@.len() ==> lines@[i].total == uid_total(entries@, lines@[i].uid),
        r matches Some(lines) ==> forall|i: int|
            0 <= i < lines@.len() ==> has_file_for(entries@, lines@[i].uid),
        r matches Some(lines) ==> forall|u: u32|
            has_file_for(entries@, u) ==> has_line_for(lines@, u),
        r matches Some(lines) ==> forall|i: int, j: int|
            0 <= i < j < lines@.len() ==> lines@[i].uid != lines@[j].uid,
        r matches Some(lines) ==> forall|i: int, j: int|
            0 <= i <= j < lines@.len() ==> lines@[i].total <= lines@[j].total,
        r matches Some(lines) ==> line_total_sum(lines@) == file_total(entries@),
        r matches Some(lines) ==> forall|i: int|
            0 <= i < lines@.len() ==> lines@[i].formatted@ == spec_rendered(
                formatter.mode,
                formatter.si,
                lines@[i].total,
            ),
        r matches Some(lines) ==> forall|i: int|
            0 <= i < lines@.len() ==> named_from_some_lookup(#[trigger] lines@[i]),
{
    let n = entries.len();
    let mut acc: u64 = 0;
    let mut i: usize = 0;
    proof {
        assert(entries@.take(0) =~= Seq::<RawEntry>::empty());
    }
    while i < n
        invariant
            n == entries.len(),
            0 <= i <= n,
            acc as int == file_total(entries@.take(i as int)),
        decreases n - i,
    {
        let e = entries[i];
        proof {
            lemma_totals_take_succ(entries@, i as int);
        }
        match e.kind {
            EntryKind::File => {
                if e.size > u64::MAX - acc {
                    proof {
                        lemma_file_total_take_monotone(entries@, i as int + 1);
                    }
                    return None;
                }
                acc = acc + e.size;
            },
            _ => {},
        }
        i = i + 1;
    }
    proof {
        assert(entries@.take(n as int) =~= entries@);
    }
    let lines = report(entries, formatter);
    proof {
        assert(forall|i: int|
            0 <= i < lines@.len() ==> named_from_some_lookup(#[trigger] lines@[i]));
    }
    Some(lines)
}

} // verus!
