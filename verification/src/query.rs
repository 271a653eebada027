//! The read side: the latest sample and the most recent samples, for the
//! bounded store and for rows that a durable store hands back.
//!
//! Nothing here fails. An empty store yields "no content" for the latest
//! sample and an empty history; a size that is out of range is clamped.

use vstd::prelude::*;
use crate::sample::Sample;
use crate::store::{newest, newest_first, TelemetryStore};

verus! {

/// The number of samples in a history when no size is asked for: one day at
/// one sample per minute.
pub const DEFAULT_HISTORY: usize = 1440;

/// The answer to a request for the latest sample.
#[derive(Clone, Copy, Debug, PartialEq, Eq, Structural)]
pub enum LatestReply {
    /// The store is empty. This is an answer, not a fault.
    NoContent,
    /// The most recent sample.
    Content(Sample),
}

/// The answer that goes with what the store has as its latest sample.
pub open spec fn reply_of(latest: Option<Sample>) -> LatestReply {
    match latest {
        None => LatestReply::NoContent,
        Some(sample) => LatestReply::Content(sample),
    }
}

/// The number of samples to read for a requested size: the default where
/// none is given, none where the size is negative, and otherwise the size,
/// as far as the machine can count.
pub open spec fn clamped_limit(size: Option<i64>) -> nat {
    match size {
        None => DEFAULT_HISTORY as nat,
        Some(size) => if size <= 0 {
            0
        } else if size > usize::MAX {
            usize::MAX as nat
        } else {
            size as nat
        },
    }
}

/// The rows that decoded, in the order in which they came.
pub open spec fn decoded(rows: Seq<Option<Sample>>) -> Seq<Sample>
    decreases rows.len(),
{
    if rows.len() == 0 {
        Seq::empty()
    } else {
        match rows.last() {
            Some(sample) => decoded(rows.drop_last()).push(sample),
            None => decoded(rows.drop_last()),
        }
    }
}

/// The first `limit` entries of `samples`; all of them where there are no
/// more.
pub open spec fn capped(samples: Seq<Sample>, limit: nat) -> Seq<Sample> {
    if samples.len() <= limit {
        samples
    } else {
        samples.take(limit as int)
    }
}

/// The number of samples to read for a requested size.
pub fn history_limit(size: Option<i64>) -> (limit: usize)
    ensures
        limit == clamped_limit(size),
{
    match size {
        None => DEFAULT_HISTORY,
        Some(size) => {
            if size <= 0 {
                0
            } else if size as u64 > usize::MAX as u64 {
                usize::MAX
            } else {
                size as usize
            }
        },
    }
}

/// The answer for a latest sample that may be absent.
pub fn latest_reply(latest: Option<Sample>) -> (reply: LatestReply)
    ensures
        reply == reply_of(latest),
{
    match latest {
        None => LatestReply::NoContent,
        Some(sample) => LatestReply::Content(sample),
    }
}

/// The latest sample of `store`, or "no content" where it is empty.
pub fn latest(store: &TelemetryStore) -> (reply: LatestReply)
    requires
        store.wf(),
    ensures
        reply == reply_of(newest(store@)),
{
    latest_reply(store.latest())
}

/// The most recent samples of `store`, most recent first: as many as `size`
/// asks for after clamping, or all of them where the store holds fewer.
pub fn history(store: &TelemetryStore, size: Option<i64>) -> (samples: Vec<Sample>)
    requires
        store.wf(),
    ensures
        samples@ == newest_first(store@, clamped_limit(size)),
{
    store.history(history_limit(size))
}

/// Keeps the rows that decoded and drops the others, in the order in which
/// they came.
pub fn decoded_rows(rows: &Vec<Option<Sample>>) -> (samples: Vec<Sample>)
    ensures
        samples@ == decoded(rows@),
{
    let mut samples: Vec<Sample> = Vec::new();
    let mut index: usize = 0;
    while index < rows.len()
        invariant
            index <= rows.len(),
            samples@ == decoded(rows@.take(index as int)),
        decreases rows.len() - index,
    {
        proof {
            assert(rows@.take(index + 1).drop_last() =~= rows@.take(index as int));
        }
        match rows[index] {
            Some(sample) => {
                samples.push(sample);
            },
            None => {},
        }
        index = index + 1;
    }
    proof {
        assert(rows@.take(index as int) =~= rows@);
    }
    samples
}

/// The history that a scan of a durable store amounts to: the rows that
/// decoded, in the order in which they came, and no more of them than `size`
/// asks for after clamping, however many the scan handed back.
pub fn history_of_rows(rows: &Vec<Option<Sample>>, size: Option<i64>) -> (samples: Vec<Sample>)
    ensures
        samples@ == capped(decoded(rows@), clamped_limit(size)),
{
    let mut samples = decoded_rows(rows);
    let limit = history_limit(size);
    if samples.len() > limit {
        samples.truncate(limit);
    }
    samples
}

/// A size is never a fault: the limit is 0 for every size below 1, the size
/// itself for every size the machine can count, and the default where no
/// size is given. A larger size never gives a smaller limit.
pub proof fn lemma_limit_clamps(size: i64, larger: i64)
    requires
        size <= larger,
    ensures
        size <= 0 ==> clamped_limit(Some(size)) == 0,
        0 < size <= usize::MAX ==> clamped_limit(Some(size)) == size,
        clamped_limit(Some(size)) <= clamped_limit(Some(larger)),
        clamped_limit(None) == DEFAULT_HISTORY,
{
}

/// A history is never longer than the clamped size nor than what is stored,
/// and it is empty for an empty store and for every size below 1.
pub proof fn lemma_history_bounded(held: Seq<Sample>, size: Option<i64>)
    ensures
        newest_first(held, clamped_limit(size)).len() <= clamped_limit(size),
        newest_first(held, clamped_limit(size)).len() <= held.len(),
        held.len() <= clamped_limit(size) ==> newest_first(held, clamped_limit(size)).len()
            == held.len(),
        (size matches Some(asked) && asked <= 0) ==> newest_first(held, clamped_limit(size))
            == Seq::<Sample>::empty(),
{
    if let Some(asked) = size {
        if asked <= 0 {
            assert(newest_first(held, clamped_limit(size)) =~= Seq::<Sample>::empty());
        }
    }
}

/// Where the scan is that of a store in capture order, read from the most
/// recent end and complete up to the clamped size, the history of its rows is
/// the history of the store: both kinds of store answer alike.
pub proof fn lemma_rows_match_store(held: Seq<Sample>, size: Option<i64>)
    ensures
        capped(
            decoded(newest_first(held, clamped_limit(size)).map_values(|s: Sample| Some(s))),
            clamped_limit(size),
        ) == newest_first(held, clamped_limit(size)),
{
    let scan = newest_first(held, clamped_limit(size));
    lemma_decoded_keeps_order(scan.map_values(|s: Sample| Some(s)));
    assert(decoded(scan.map_values(|s: Sample| Some(s))) =~= scan);
}

/// Dropping the rows that did not decode keeps the others in order: nothing
/// is added, and where every row decoded nothing is lost.
pub proof fn lemma_decoded_keeps_order(rows: Seq<Option<Sample>>)
    ensures
        decoded(rows).len() <= rows.len(),
        forall|i: int| 0 <= i < decoded(rows).len() ==> rows.contains(Some(#[trigger] decoded(rows)[i])),
        (forall|i: int| 0 <= i < rows.len() ==> rows[i] is Some) ==> {
            &&& decoded(rows).len() == rows.len()
            &&& forall|i: int| 0 <= i < rows.len() ==> rows[i] == Some(#[trigger] decoded(rows)[i])
        },
    decreases rows.len(),
{
    if rows.len() > 0 {
        let front = rows.drop_last();
        lemma_decoded_keeps_order(front);
        assert forall|i: int| 0 <= i < decoded(rows).len() implies rows.contains(
            Some(#[trigger] decoded(rows)[i]),
        ) by {
            if i < decoded(front).len() {
                let k = choose|k: int| 0 <= k < front.len() && front[k] == Some(decoded(front)[i]);
                assert(rows[k] == front[k]);
            } else {
                assert(rows[rows.len() - 1] == Some(decoded(rows)[i]));
            }
        }
        if forall|i: int| 0 <= i < rows.len() ==> rows[i] is Some {
            assert forall|i: int| 0 <= i < front.len() implies front[i] is Some by {
                assert(front[i] == rows[i]);
            }
            assert forall|i: int| 0 <= i < rows.len() implies rows[i] == Some(
                #[trigger] decoded(rows)[i],
            ) by {
                if i < front.len() {
                    assert(front[i] == rows[i]);
                }
            }
        }
    }
}

} // verus!
