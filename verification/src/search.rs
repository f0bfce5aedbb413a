//! The listing that a search shows.

use vstd::prelude::*;
use crate::api::{ApiResponse, PackageInfo};
use crate::text::Text;

verus! {

/// The place of a popularity score among all scores, from its bit pattern:
/// a score with a larger rank is the larger number. Of two patterns with
/// the sign bit clear the larger one ranks higher; every pattern with the
/// sign bit set ranks below those, the larger pattern lower. So negative
/// zero ranks just below zero, and the order is total over all patterns.
pub open spec fn rank(bits: u32) -> int {
    if bits < 0x8000_0000 {
        bits as int
    } else {
        0x7fff_ffff - bits
    }
}

/// The rank of each record is at most that of the next.
pub open spec fn ascending(records: Seq<PackageInfo>) -> bool {
    forall|i: int, j: int|
        0 <= i <= j < records.len() ==> rank(records[i].popularity) <= rank(records[j].popularity)
}

/// The records of rank `r`, in the order in which they stand.
pub open spec fn of_rank(records: Seq<PackageInfo>, r: int) -> Seq<PackageInfo> {
    records.filter(|p: PackageInfo| rank(p.popularity) == r)
}

/// `sorted` holds the records of `records` by ascending popularity, those
/// of equal popularity in the order in which they stood.
pub open spec fn is_stable_sort(records: Seq<PackageInfo>, sorted: Seq<PackageInfo>) -> bool {
    &&& ascending(sorted)
    &&& sorted.len() == records.len()
    &&& forall|r: int| of_rank(sorted, r) == of_rank(records, r)
}

/// The place of a popularity score among all scores.
pub fn popularity_rank(bits: u32) -> (r: i64)
    ensures
        r == rank(bits),
{
    if bits < 0x8000_0000 {
        bits as i64
    } else {
        0x7fff_ffff - (bits as i64)
    }
}

/// Putting a record behind all that rank no higher keeps the records of
/// every rank in their order.
proof fn lemma_insert_of_rank(sorted: Seq<PackageInfo>, at: int, record: PackageInfo, r: int)
    requires
        0 <= at <= sorted.len(),
        forall|k: int| at <= k < sorted.len() ==> rank(sorted[k].popularity) > rank(record.popularity),
    ensures
        of_rank(sorted.insert(at, record), r) == if rank(record.popularity) == r {
            of_rank(sorted, r).push(record)
        } else {
            of_rank(sorted, r)
        },
{
    let keep = |p: PackageInfo| rank(p.popularity) == r;
    let head = sorted.subrange(0, at);
    let tail = sorted.subrange(at, sorted.len() as int);
    let one = seq![record];
    assert(sorted.insert(at, record) =~= head + one + tail);
    assert(sorted =~= head + tail);
    Seq::filter_distributes_over_add(head + one, tail, keep);
    Seq::filter_distributes_over_add(head, one, keep);
    Seq::filter_distributes_over_add(head, tail, keep);
    assert(one.filter(keep) =~= if keep(record) {
        one
    } else {
        Seq::empty()
    }) by {
        reveal_with_fuel(Seq::filter, 2);
        assert(one.drop_last() =~= Seq::<PackageInfo>::empty());
    }
    if keep(record) {
        assert(tail.filter(keep).len() == 0) by {
            if tail.filter(keep).len() > 0 {
                let x = tail.filter(keep)[0];
                tail.lemma_filter_pred(keep, 0);
                assert(tail.filter(keep).contains(x));
                tail.lemma_filter_contains_rev(keep, x);
                let k = choose|k: int| 0 <= k < tail.len() && tail[k] == x;
                assert(tail[k] == sorted[at + k]);
            }
        }
        assert(head.filter(keep) + one + tail.filter(keep) =~= (head.filter(keep)
            + tail.filter(keep)).push(record));
    } else {
        assert(head.filter(keep) + Seq::<PackageInfo>::empty() + tail.filter(keep)
            =~= head.filter(keep) + tail.filter(keep));
    }
}

/// The records by ascending popularity; records of equal popularity keep
/// their order.
pub fn sort_by_popularity(records: Vec<PackageInfo>) -> (sorted: Vec<PackageInfo>)
    ensures
        is_stable_sort(records@, sorted@),
{
    let ghost all = records@;
    let mut rest = records;
    let mut sorted: Vec<PackageInfo> = Vec::new();
    let ghost mut done: int = 0;
    proof {
        assert(all.take(0) =~= Seq::<PackageInfo>::empty());
        assert forall|r: int| of_rank(sorted@, r) == of_rank(all.take(0), r) by {
            assert(sorted@ =~= all.take(0));
        }
        assert(all.skip(0) =~= all);
    }
    while rest.len() > 0
        invariant
            0 <= done <= all.len(),
            rest@ == all.skip(done),
            sorted@.len() == done,
            ascending(sorted@),
            forall|r: int| of_rank(sorted@, r) == of_rank(all.take(done), r),
        decreases rest.len(),
    {
        let record = rest.remove(0);
        let key = popularity_rank(record.popularity);
        let mut at: usize = sorted.len();
        while at > 0 && popularity_rank(sorted[at - 1].popularity) > key
            invariant
                at <= sorted.len(),
                key == rank(record.popularity),
                forall|k: int|
                    at <= k < sorted@.len() ==> rank(sorted@[k].popularity) > rank(
                        record.popularity,
                    ),
            decreases at,
        {
            at -= 1;
        }
        proof {
            let before = sorted@;
            let after = before.insert(at as int, record);
            assert(record == all[done]);
            assert(rest@ =~= all.skip(done + 1));
            assert(all.take(done + 1) =~= all.take(done).push(record));
            assert forall|r: int| of_rank(after, r) == of_rank(all.take(done + 1), r) by {
                lemma_insert_of_rank(before, at as int, record, r);
                reveal(Seq::filter);
                assert(all.take(done + 1).drop_last() =~= all.take(done));
            }
            assert(ascending(after)) by {
                assert forall|i: int, j: int| 0 <= i <= j < after.len() implies rank(
                    after[i].popularity,
                ) <= rank(after[j].popularity) by {
                    if i < at && j > at {
                        assert(after[i] == before[i] && after[j] == before[j - 1]);
                    } else if i < at && j < at {
                        assert(after[i] == before[i] && after[j] == before[j]);
                    } else if i < at && j == at {
                        assert(after[i] == before[i]);
                        if at > 0 {
                            assert(rank(before[at - 1].popularity) <= rank(record.popularity));
                        }
                    } else if i == at && j > at {
                        assert(after[j] == before[j - 1]);
                    } else if i > at {
                        assert(after[i] == before[i - 1] && after[j] == before[j - 1]);
                    }
                }
            }
            done = done + 1;
        }
        sorted.insert(at, record);
    }
    proof {
        assert(all.take(done) =~= all);
    }
    sorted
}

/// What a search shows.
#[derive(Debug, Clone, PartialEq, Eq)]
pub enum Listing {
    /// The message with which the index refused the query.
    Message(String),
    /// The matches, the least popular first.
    Matches(Vec<PackageInfo>),
}

impl Listing {
    /// This listing shows what the index answered with `response`.
    pub open spec fn shows(self, response: ApiResponse) -> bool {
        match response.error {
            Some(message) => self matches Listing::Message(m) && m@ == message@,
            None => self matches Listing::Matches(sorted) && is_stable_sort(
                response.results@,
                sorted@,
            ),
        }
    }
}

/// What to show for an answer of the index: its message where it refused
/// the query, else the matches by ascending popularity.
pub fn search_listing(response: ApiResponse) -> (listing: Listing)
    ensures
        listing.shows(response),
{
    match response.error {
        Some(message) => Listing::Message(message),
        None => Listing::Matches(sort_by_popularity(response.results)),
    }
}

/// The text that stands for a description that is not there.
pub open spec fn no_description() -> Text {
    "<No description>"@
}

/// The description to print for a record.
pub fn description_or_placeholder(record: &PackageInfo) -> (text: &str)
    ensures
        text@ == match record.description {
            Some(description) => description@,
            None => no_description(),
        },
{
    match &record.description {
        Some(description) => description.as_str(),
        None => "<No description>",
    }
}

} // verus!
