//! The event filter: drops all-day events unless they are explicitly
//! included.  Order-preserving and stable.

use vstd::prelude::*;
use crate::event::KhalEvent;

verus! {

/// Whether an event survives the filter.
pub open spec fn keep_event(e: KhalEvent, include_all_day: bool) -> bool {
    include_all_day || !e.all_day
}

/// The filtered sequence: the input in order, without the events that
/// `keep_event` rejects.
pub open spec fn filter_events_spec(s: Seq<KhalEvent>, include_all_day: bool) -> Seq<KhalEvent>
    decreases s.len(),
{
    if s.len() == 0 {
        Seq::empty()
    } else if keep_event(s[0], include_all_day) {
        seq![s[0]] + filter_events_spec(s.drop_first(), include_all_day)
    } else {
        filter_events_spec(s.drop_first(), include_all_day)
    }
}

/// Every element of the filtered sequence is an element of the input
/// that `keep_event` accepts.
pub proof fn lemma_filter_events_members(s: Seq<KhalEvent>, include_all_day: bool)
    ensures
        forall|i: int|
            0 <= i < filter_events_spec(s, include_all_day).len() ==> keep_event(
                #[trigger] filter_events_spec(s, include_all_day)[i],
                include_all_day,
            ),
    decreases s.len(),
{
    if s.len() > 0 {
        lemma_filter_events_members(s.drop_first(), include_all_day);
        let rest = filter_events_spec(s.drop_first(), include_all_day);
        let whole = filter_events_spec(s, include_all_day);
        if keep_event(s[0], include_all_day) {
            assert forall|i: int| 0 <= i < whole.len() implies keep_event(
                whole[i],
                include_all_day,
            ) by {
                if i == 0 {
                    assert(whole[0] == s[0]);
                } else {
                    assert(whole[i] == rest[i - 1]);
                }
            }
        }
    }
}

/// Filtering a sequence in which every event already passes the filter
/// returns it unchanged.
pub proof fn lemma_filter_events_all_kept(s: Seq<KhalEvent>, include_all_day: bool)
    requires
        forall|i: int| 0 <= i < s.len() ==> keep_event(#[trigger] s[i], include_all_day),
    ensures
        filter_events_spec(s, include_all_day) == s,
    decreases s.len(),
{
    if s.len() > 0 {
        lemma_filter_events_all_kept(s.drop_first(), include_all_day);
        assert(filter_events_spec(s, include_all_day) =~= s);
    } else {
        assert(filter_events_spec(s, include_all_day) =~= s);
    }
}

/// Filtering is idempotent: applying the filter to an already-filtered
/// sequence returns it unchanged.
pub proof fn lemma_filter_events_idempotent(s: Seq<KhalEvent>, include_all_day: bool)
    ensures
        filter_events_spec(filter_events_spec(s, include_all_day), include_all_day)
            == filter_events_spec(s, include_all_day),
{
    lemma_filter_events_members(s, include_all_day);
    lemma_filter_events_all_kept(filter_events_spec(s, include_all_day), include_all_day);
}

/// Drop the all-day events from `events` unless `include_all_day` is set.
/// Keeps the surviving events in their original order.
pub fn filter_events(events: Vec<KhalEvent>, include_all_day: bool) -> (r: Vec<KhalEvent>)
    ensures
        r@ == filter_events_spec(events@, include_all_day),
{
    let ghost orig: Seq<KhalEvent> = events@;
    let mut remaining = events;
    let mut out: Vec<KhalEvent> = Vec::new();
    while remaining.len() > 0
        invariant
            out@ + filter_events_spec(remaining@, include_all_day)
                == filter_events_spec(orig, include_all_day),
        decreases remaining.len(),
    {
        let ghost before: Seq<KhalEvent> = remaining@;
        let e = remaining.remove(0);
        proof {
            assert(before.drop_first() =~= remaining@);
        }
        if include_all_day || !e.is_all_day() {
            out.push(e);
            proof {
                assert(out@ + filter_events_spec(remaining@, include_all_day)
                    =~= filter_events_spec(orig, include_all_day));
            }
        }
    }
    proof {
        assert(out@ + filter_events_spec(remaining@, include_all_day) =~= out@);
    }
    out
}

} // verus!
