//! Suppression of repeated notifications: a value is passed on only when it
//! differs from the last one seen.

use vstd::prelude::*;
use crate::notify_model::{Notify, NotifyView};

verus! {

/// The view of an optional notification.
pub open spec fn opt_notify_view(n: Option<Notify>) -> Option<NotifyView> {
    match n {
        Some(x) => Some(x@),
        None => None,
    }
}

/// One step of the filter: the value held after seeing `v`, and what is passed on.
pub open spec fn filter_next(prev: NotifyView, v: NotifyView) -> (NotifyView, Option<NotifyView>) {
    if v == prev {
        (prev, None)
    } else {
        (v, Some(v))
    }
}

/// What the filter passes on, in order, from the inputs `s` when it holds `prev`.
pub open spec fn dedup(prev: NotifyView, s: Seq<NotifyView>) -> Seq<NotifyView>
    decreases s.len(),
{
    if s.len() == 0 {
        seq![]
    } else {
        let (next, out) = filter_next(prev, s[0]);
        match out {
            Some(x) => seq![x] + dedup(next, s.drop_first()),
            None => dedup(next, s.drop_first()),
        }
    }
}

/// What the filter holds after the inputs `s`, starting from `prev`.
pub open spec fn held_after(prev: NotifyView, s: Seq<NotifyView>) -> NotifyView
    decreases s.len(),
{
    if s.len() == 0 {
        prev
    } else {
        held_after(filter_next(prev, s[0]).0, s.drop_first())
    }
}

/// No two neighbours of `d` are equal, and its first element differs from `prev`.
pub open spec fn no_repeats_after(prev: NotifyView, d: Seq<NotifyView>) -> bool {
    &&& d.len() > 0 ==> d[0] != prev
    &&& forall|i: int| 0 <= i < d.len() - 1 ==> #[trigger] d[i] != d[i + 1]
}

/// Sees `v` while holding `previous` (the last value passed on, initially
/// [`Notify::Unknown`]): passes `v` on and holds it when it differs from the
/// value held, otherwise passes nothing on and holds the same value.
pub fn duplicate_filter(previous: &mut Notify, v: Notify) -> (out: Option<Notify>)
    ensures
        (final(previous)@, opt_notify_view(out)) == filter_next(old(previous)@, v@),
{
    if v != *previous {
        let sent = v.clone();
        *previous = v;
        Some(sent)
    } else {
        None
    }
}

/// Nothing the filter passes on repeats its neighbour, nor the value it held
/// before: consumers never see the same notification twice in a row.
pub proof fn law_no_consecutive_duplicates(prev: NotifyView, s: Seq<NotifyView>)
    ensures
        no_repeats_after(prev, dedup(prev, s)),
    decreases s.len(),
{
    if s.len() > 0 {
        let (next, out) = filter_next(prev, s[0]);
        law_no_consecutive_duplicates(next, s.drop_first());
        let rest = dedup(next, s.drop_first());
        if out is Some {
            let d = seq![s[0]] + rest;
            assert forall|i: int| 0 <= i < d.len() - 1 implies #[trigger] d[i] != d[i + 1] by {
                if i > 0 {
                    assert(d[i] == rest[i - 1]);
                    assert(d[i + 1] == rest[i]);
                }
            }
        }
    }
}

/// A sequence that has no repeats after `prev` passes through the filter unchanged.
pub proof fn law_unrepeated_passes_unchanged(prev: NotifyView, d: Seq<NotifyView>)
    requires
        no_repeats_after(prev, d),
    ensures
        dedup(prev, d) == d,
    decreases d.len(),
{
    if d.len() > 0 {
        let tail = d.drop_first();
        assert forall|i: int| 0 <= i < tail.len() - 1 implies #[trigger] tail[i] != tail[i + 1] by {
            assert(tail[i] == d[i + 1]);
            assert(tail[i + 1] == d[i + 2]);
        }
        if tail.len() > 0 {
            assert(tail[0] == d[1]);
            assert(d[0] != d[1]);
        }
        law_unrepeated_passes_unchanged(d[0], tail);
        assert(d =~= seq![d[0]] + tail);
    }
}

/// Filtering twice passes on the same as filtering once.
pub proof fn law_filter_idempotent(prev: NotifyView, s: Seq<NotifyView>)
    ensures
        dedup(prev, dedup(prev, s)) == dedup(prev, s),
{
    law_no_consecutive_duplicates(prev, s);
    law_unrepeated_passes_unchanged(prev, dedup(prev, s));
}

/// Each value passed on is one of the inputs, and after the inputs the filter
/// holds the last of them (or what it held before, when there were none).
pub proof fn law_filter_outputs_are_inputs(prev: NotifyView, s: Seq<NotifyView>)
    ensures
        forall|i: int| 0 <= i < dedup(prev, s).len() ==> s.contains(#[trigger] dedup(prev, s)[i]),
        s.len() > 0 ==> held_after(prev, s) == s.last(),
    decreases s.len(),
{
    if s.len() > 0 {
        let (next, out) = filter_next(prev, s[0]);
        let tail = s.drop_first();
        law_filter_outputs_are_inputs(next, tail);
        let rest = dedup(next, tail);
        assert forall|i: int| 0 <= i < dedup(prev, s).len() implies s.contains(
            #[trigger] dedup(prev, s)[i],
        ) by {
            if out is Some {
                if i == 0 {
                    assert(s[0] == dedup(prev, s)[0]);
                } else {
                    assert(dedup(prev, s)[i] == rest[i - 1]);
                    assert(tail.contains(rest[i - 1]));
                    let k = choose|k: int| 0 <= k < tail.len() && tail[k] == rest[i - 1];
                    assert(s[k + 1] == tail[k]);
                }
            } else {
                assert(tail.contains(rest[i]));
                let k = choose|k: int| 0 <= k < tail.len() && tail[k] == rest[i];
                assert(s[k + 1] == tail[k]);
            }
        }
    }
}

} // verus!
