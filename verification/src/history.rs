//! Histories of a cache: what holds of tokens and slots over any sequence
//! of token reservations and replies.

use vstd::prelude::*;
use crate::device::Reply;
use crate::resource::{
    lemma_apply, lemma_reserve, reply_kind, reply_slot, reply_token, Kind, Tables,
};

verus! {

/// One change of a cache.
pub enum Event {
    /// A token of the given kind is handed out.
    Reserve(Kind),
    /// A reply from the device is applied.
    Deliver(Reply),
}

/// The tables after one event.
pub open spec fn after_event(tables: Tables, event: Event) -> Tables {
    match event {
        Event::Reserve(kind) => tables.reserve(kind),
        Event::Deliver(reply) => tables.apply(reply),
    }
}

/// The tables after a sequence of events, the first event first.
pub open spec fn after(tables: Tables, events: Seq<Event>) -> Tables
    decreases events.len(),
{
    if events.len() == 0 {
        tables
    } else {
        after_event(after(tables, events.drop_last()), events.last())
    }
}

/// Every reply in the history addresses a token that was handed out before
/// the reply is applied.
pub open spec fn valid(tables: Tables, events: Seq<Event>) -> bool {
    forall|i: int|
        0 <= i < events.len() ==> (#[trigger] events[i] matches Event::Deliver(reply) ==> after(
            tables,
            events.take(i),
        ).knows(reply))
}

/// Whether event `index` is a reply for the slot of `token` in the table of
/// `kind`.
pub open spec fn answers(events: Seq<Event>, index: int, kind: Kind, token: int) -> bool {
    events[index] matches Event::Deliver(reply) && reply_kind(reply) == kind && reply_token(reply)
        == token
}

proof fn lemma_take_step(tables: Tables, events: Seq<Event>, i: int)
    requires
        0 <= i < events.len(),
    ensures
        after(tables, events.take(i + 1)) == after_event(after(tables, events.take(i)), events[i]),
{
    assert(events.take(i + 1).drop_last() =~= events.take(i));
    assert(events.take(i + 1).last() == events[i]);
}

/// Along a history no table shrinks, and the table of a kind grows by one
/// with every token handed out for it.
pub proof fn lemma_sizes(tables: Tables, events: Seq<Event>, kind: Kind, i: int, j: int)
    requires
        valid(tables, events),
        0 <= i <= j <= events.len(),
    ensures
        after(tables, events.take(i)).len(kind) <= after(tables, events.take(j)).len(kind),
        i < j && events[i] == Event::Reserve(kind) ==> after(tables, events.take(i)).len(kind)
            < after(tables, events.take(j)).len(kind),
    decreases j - i,
{
    if i < j {
        lemma_take_step(tables, events, i);
        let here = after(tables, events.take(i));
        match events[i] {
            Event::Reserve(other) => {
                lemma_reserve(here, other);
            },
            Event::Deliver(reply) => {
                lemma_apply(here, reply);
            },
        }
        lemma_sizes(tables, events, kind, i + 1, j);
    }
}

/// Tokens of one kind are handed out in strictly increasing order, starting
/// at the size the table of that kind had at first: of two tokens of a kind,
/// the one handed out later is the larger, and none was in the table before.
pub proof fn law_tokens_increase(tables: Tables, events: Seq<Event>, kind: Kind, i: int, j: int)
    requires
        valid(tables, events),
        0 <= i < j < events.len(),
        events[i] == Event::Reserve(kind),
        events[j] == Event::Reserve(kind),
    ensures
        tables.len(kind) <= after(tables, events.take(i)).len(kind) < after(
            tables,
            events.take(j),
        ).len(kind),
        !tables.has(kind, after(tables, events.take(i)).len(kind) as int),
{
    lemma_sizes(tables, events, kind, 0, i);
    lemma_sizes(tables, events, kind, i, j);
    assert(events.take(0) =~= Seq::<Event>::empty());
}

/// A token that is handed out gets a slot that is `Pending`, and every slot
/// that was there before stays as it is.
pub proof fn law_slot_starts_pending(tables: Tables, kind: Kind)
    ensures
        tables.reserve(kind).has(kind, tables.len(kind) as int),
        tables.reserve(kind).slot(kind, tables.len(kind) as int).is_pending(),
        forall|other: Kind, token: int|
            tables.has(other, token) ==> tables.reserve(kind).has(other, token)
                && #[trigger] tables.reserve(kind).slot(other, token) == tables.slot(other, token),
{
    lemma_reserve(tables, kind);
}

/// A reply moves the slot it addresses to the state it carries, `Loaded` or
/// `Failed`, and leaves every other slot as it is.
pub proof fn law_reply_settles(tables: Tables, reply: Reply)
    requires
        tables.knows(reply),
    ensures
        tables.apply(reply).slot(reply_kind(reply), reply_token(reply) as int) == reply_slot(
            reply,
        ),
        !reply_slot(reply).is_pending(),
        forall|kind: Kind, token: int|
            tables.has(kind, token) && !(kind == reply_kind(reply) && token == reply_token(reply))
                ==> #[trigger] tables.apply(reply).slot(kind, token) == tables.slot(kind, token),
{
    lemma_apply(tables, reply);
}

/// A slot that is answered never becomes `Pending` again, whatever is
/// handed out or applied afterwards.
pub proof fn law_never_pending_again(
    tables: Tables,
    events: Seq<Event>,
    kind: Kind,
    token: int,
    i: int,
    j: int,
)
    requires
        valid(tables, events),
        0 <= i <= j <= events.len(),
        after(tables, events.take(i)).resolved(kind, token),
    ensures
        after(tables, events.take(j)).resolved(kind, token),
    decreases j - i,
{
    if i < j {
        lemma_take_step(tables, events, i);
        let here = after(tables, events.take(i));
        match events[i] {
            Event::Reserve(other) => {
                lemma_reserve(here, other);
            },
            Event::Deliver(reply) => {
                lemma_apply(here, reply);
            },
        }
        law_never_pending_again(tables, events, kind, token, i + 1, j);
    }
}

/// A slot keeps the state its reply gave it: as long as no further reply
/// addresses it, it holds the same `Loaded` or `Failed` value.
pub proof fn law_resolution_is_final(
    tables: Tables,
    events: Seq<Event>,
    kind: Kind,
    token: int,
    i: int,
    j: int,
)
    requires
        valid(tables, events),
        0 <= i <= j <= events.len(),
        after(tables, events.take(i)).has(kind, token),
        forall|k: int| i <= k < j ==> !answers(events, k, kind, token),
    ensures
        after(tables, events.take(j)).has(kind, token),
        after(tables, events.take(j)).slot(kind, token) == after(tables, events.take(i)).slot(
            kind,
            token,
        ),
    decreases j - i,
{
    if i < j {
        lemma_take_step(tables, events, i);
        let here = after(tables, events.take(i));
        assert(!answers(events, i, kind, token));
        match events[i] {
            Event::Reserve(other) => {
                lemma_reserve(here, other);
            },
            Event::Deliver(reply) => {
                lemma_apply(here, reply);
            },
        }
        law_resolution_is_final(tables, events, kind, token, i + 1, j);
    }
}

} // verus!
