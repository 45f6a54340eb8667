//! What the cache operations come to against a store that behaves as a
//! key-value map with expiry.
//!
//! The store of this module is a mathematical model, not the real one: it
//! knows the commands that act on one key, and it keeps each value until its
//! lifetime is over. The laws below hold of every store that answers as the
//! model does.

use vstd::prelude::*;

use crate::cache::clear_start;
use crate::cache::delete_start;
use crate::cache::get_start;
use crate::cache::next_step;
use crate::cache::set_start;
use crate::cache::sweep_step;
use crate::key::cache_key;
use crate::protocol::EventView;
use crate::protocol::OutcomeView;
use crate::protocol::RequestView;
use crate::protocol::StepView;
use crate::protocol::WaitingView;

verus! {

/// A stored value and the moment, in seconds, at which it expires. The
/// value is a text, or `None` for bytes that are no text.
pub struct Slot {
    pub value: Option<Seq<char>>,
    pub expires_at: nat,
}

/// Whether `store` holds a value under `key` that has not expired at `now`.
pub open spec fn live(store: Map<Seq<char>, Slot>, now: nat, key: Seq<char>) -> bool {
    store.contains_key(key) && now < store[key].expires_at
}

/// The store after `request` at the moment `now`, and its answer. A read
/// gives the live value, says so where that is no text, and fails where
/// there is none. A write with a
/// lifetime of at least one second replaces the value and sets its expiry; one
/// with no lifetime is refused. A deletion removes the key and counts one if
/// the value was live. Every other request fails and changes nothing.
pub open spec fn answer(store: Map<Seq<char>, Slot>, now: nat, request: RequestView) -> (
    Map<Seq<char>, Slot>,
    EventView,
) {
    match request {
        RequestView::Get { key } => if live(store, now, key) {
            match store[key].value {
                Some(text) => (store, EventView::Text(text)),
                None => (store, EventView::Unreadable),
            }
        } else {
            (store, EventView::Failed)
        },
        RequestView::SetEx { key, value, seconds } => if seconds > 0 {
            (
                store.insert(key, Slot { value: Some(value), expires_at: now + seconds }),
                EventView::Done,
            )
        } else {
            (store, EventView::Failed)
        },
        RequestView::Del { key } => if live(store, now, key) {
            (store.remove(key), EventView::Count(1))
        } else {
            (store.remove(key), EventView::Count(0))
        },
        _ => (store, EventView::Failed),
    }
}

/// The store after `request`, and the event that answers it: what the
/// decoder `decodes` says of a text to decode, else what the store answers.
pub open spec fn respond(
    store: Map<Seq<char>, Slot>,
    now: nat,
    decodes: spec_fn(Seq<char>) -> bool,
    request: RequestView,
) -> (Map<Seq<char>, Slot>, EventView) {
    match request {
        RequestView::Decode { text } => (store, EventView::Decoded(decodes(text))),
        _ => answer(store, now, request),
    }
}

/// Runs an operation from `step` against `store` at the moment `now`, for
/// at most `rounds` requests: the store that is left, and how the operation
/// ended, if it did.
pub open spec fn run(
    step: StepView,
    store: Map<Seq<char>, Slot>,
    now: nat,
    decodes: spec_fn(Seq<char>) -> bool,
    rounds: nat,
) -> (Map<Seq<char>, Slot>, Option<OutcomeView>)
    decreases rounds,
{
    match step {
        StepView::Finish(outcome) => (store, Some(outcome)),
        StepView::Ask { request, waiting } => if rounds == 0 {
            (store, None)
        } else {
            let (after, event) = respond(store, now, decodes, request);
            run(next_step(waiting, event), after, now, decodes, (rounds - 1) as nat)
        },
    }
}

/// Without a store every operation ends at once, with a miss, with nothing
/// stored, nothing deleted and nothing cleared, and asks for nothing.
pub proof fn lemma_disabled_store_does_nothing(
    key: Seq<char>,
    value: Seq<char>,
    seconds: nat,
    pattern: Seq<char>,
)
    ensures
        get_start(false, key) == StepView::Finish(OutcomeView::Miss),
        set_start(false, seconds, key, value) == StepView::Finish(OutcomeView::Stored(false)),
        delete_start(false, key) == StepView::Finish(OutcomeView::Removed(false)),
        clear_start(false, pattern) == StepView::Finish(OutcomeView::Cleared(0)),
{
}

/// Storing a text and reading its key before the lifetime is over hands the
/// same text to the decoder, and the read is a hit exactly when it decodes.
pub proof fn lemma_set_then_get(
    store: Map<Seq<char>, Slot>,
    key: Seq<char>,
    text: Seq<char>,
    seconds: nat,
    stored_at: nat,
    read_at: nat,
    decodes: spec_fn(Seq<char>) -> bool,
)
    requires
        seconds > 0,
        read_at < stored_at + seconds,
    ensures
        ({
            let written = run(set_start(true, seconds, key, text), store, stored_at, decodes, 1);
            let fetched = answer(written.0, read_at, RequestView::Get { key });
            let read = run(get_start(true, key), written.0, read_at, decodes, 3);
            &&& written.1 == Some(OutcomeView::Stored(true))
            &&& fetched.1 == EventView::Text(text)
            &&& next_step(WaitingView::Fetch { key }, fetched.1) == StepView::Ask {
                request: RequestView::Decode { text },
                waiting: WaitingView::Decode { key },
            }
            &&& decodes(text) ==> read == (written.0, Some(OutcomeView::Hit))
            &&& !decodes(text) ==> read.1 == Some(OutcomeView::Miss)
        }),
{
    reveal_with_fuel(run, 4);
}

/// Once the lifetime of an entry is over, reading its key is a miss.
pub proof fn lemma_get_after_expiry(
    store: Map<Seq<char>, Slot>,
    key: Seq<char>,
    text: Seq<char>,
    seconds: nat,
    stored_at: nat,
    read_at: nat,
    decodes: spec_fn(Seq<char>) -> bool,
)
    requires
        read_at >= stored_at + seconds,
    ensures
        ({
            let written = run(set_start(true, seconds, key, text), store, stored_at, decodes, 1);
            let read = run(get_start(true, key), written.0, read_at, decodes, 3);
            written.1 == Some(OutcomeView::Stored(seconds > 0)) && (seconds > 0 ==> read == (
                written.0,
                Some(OutcomeView::Miss),
            ))
        }),
{
    reveal_with_fuel(run, 4);
}

/// Whether what `slot` holds is of no use as an entry: it is no text, or a
/// text that does not decode.
pub open spec fn corrupt(slot: Slot, decodes: spec_fn(Seq<char>) -> bool) -> bool {
    match slot.value {
        Some(text) => !decodes(text),
        None => true,
    }
}

/// Reading a key under which something corrupt is stored is a miss and
/// deletes the key.
pub proof fn lemma_get_heals_corruption(
    store: Map<Seq<char>, Slot>,
    key: Seq<char>,
    now: nat,
    decodes: spec_fn(Seq<char>) -> bool,
)
    requires
        live(store, now, key),
        corrupt(store[key], decodes),
    ensures
        run(get_start(true, key), store, now, decodes, 3) == (
            store.remove(key),
            Some(OutcomeView::Miss),
        ),
        !store.remove(key).contains_key(key),
{
    reveal_with_fuel(run, 4);
}

/// The envelope cached for a request is read back by the same request: the
/// text stored under the key of the request under a prefix is the text that
/// reading the entry cached for that request hands to the decoder, while the
/// lifetime lasts, and the read is a hit exactly when it decodes.
pub proof fn lemma_cached_response_reads_back(
    store: Map<Seq<char>, Slot>,
    prefix: Seq<char>,
    request: Seq<char>,
    text: Seq<char>,
    seconds: nat,
    stored_at: nat,
    read_at: nat,
    decodes: spec_fn(Seq<char>) -> bool,
)
    requires
        seconds > 0,
        read_at < stored_at + seconds,
    ensures
        ({
            let key = cache_key(prefix, request);
            let written = run(set_start(true, seconds, key, text), store, stored_at, decodes, 1);
            let read = run(get_start(true, key), written.0, read_at, decodes, 3);
            &&& written.1 == Some(OutcomeView::Stored(true))
            &&& live(written.0, read_at, key)
            &&& written.0[key].value == Some(text)
            &&& answer(written.0, read_at, RequestView::Get { key }).1 == EventView::Text(text)
            &&& read.1 == Some(if decodes(text) {
                OutcomeView::Hit
            } else {
                OutcomeView::Miss
            })
        }),
{
    let key = cache_key(prefix, request);
    lemma_set_then_get(store, key, text, seconds, stored_at, read_at, decodes);
    reveal_with_fuel(run, 4);
}

/// Reading a key under which nothing live is stored is a miss and leaves
/// the store as it is.
pub proof fn lemma_get_of_nothing(
    store: Map<Seq<char>, Slot>,
    key: Seq<char>,
    now: nat,
    decodes: spec_fn(Seq<char>) -> bool,
)
    requires
        !live(store, now, key),
    ensures
        run(get_start(true, key), store, now, decodes, 3) == (store, Some(OutcomeView::Miss)),
{
    reveal_with_fuel(run, 4);
}

/// Deleting a key removes it, and reports success exactly when a live value
/// was stored under it.
pub proof fn lemma_delete(
    store: Map<Seq<char>, Slot>,
    key: Seq<char>,
    now: nat,
    decodes: spec_fn(Seq<char>) -> bool,
)
    ensures
        run(delete_start(true, key), store, now, decodes, 1) == (
            store.remove(key),
            Some(OutcomeView::Removed(live(store, now, key))),
        ),
{
    reveal_with_fuel(run, 2);
}

/// Whether the listed keys are distinct and each holds a live value.
pub open spec fn all_live_once(store: Map<Seq<char>, Slot>, now: nat, keys: Seq<Seq<char>>)
    -> bool {
    &&& forall|i: int| 0 <= i < keys.len() ==> live(store, now, #[trigger] keys[i])
    &&& forall|i: int, j: int| 0 <= i < j < keys.len() ==> #[trigger] keys[i] != #[trigger] keys[j]
}

/// Deleting listed keys one by one, each of them live and listed once,
/// removes every one of them and counts each.
pub proof fn lemma_sweep_counts_each_key(
    store: Map<Seq<char>, Slot>,
    now: nat,
    keys: Seq<Seq<char>>,
    deleted: nat,
    decodes: spec_fn(Seq<char>) -> bool,
)
    requires
        all_live_once(store, now, keys),
        deleted + keys.len() <= u32::MAX,
    ensures
        run(sweep_step(keys, deleted), store, now, decodes, keys.len()) == (
            store.remove_keys(keys.to_set()),
            Some(OutcomeView::Cleared(deleted + keys.len())),
        ),
    decreases keys.len(),
{
    if keys.len() == 0 {
        assert(keys.to_set() =~= Set::<Seq<char>>::empty());
        assert(store.remove_keys(keys.to_set()) =~= store);
    } else {
        let rest = keys.skip(1);
        let after = store.remove(keys[0]);
        assert forall|i: int| 0 <= i < rest.len() implies live(after, now, #[trigger] rest[i]) by {
            assert(rest[i] == keys[i + 1]);
            assert(keys[0] != keys[i + 1]);
        }
        assert forall|i: int, j: int| 0 <= i < j < rest.len() implies #[trigger] rest[i]
            != #[trigger] rest[j] by {
            assert(rest[i] == keys[i + 1]);
            assert(rest[j] == keys[j + 1]);
        }
        lemma_sweep_counts_each_key(after, now, rest, deleted + 1, decodes);
        assert(after.remove_keys(rest.to_set()) =~= store.remove_keys(keys.to_set())) by {
            assert forall|k: Seq<char>| keys.to_set().contains(k) <==> (k == keys[0]
                || rest.to_set().contains(k)) by {
                if keys.to_set().contains(k) {
                    let i = choose|i: int| 0 <= i < keys.len() && keys[i] == k;
                    if i > 0 {
                        assert(rest[i - 1] == k);
                    }
                }
                if rest.to_set().contains(k) {
                    let i = choose|i: int| 0 <= i < rest.len() && rest[i] == k;
                    assert(keys[i + 1] == k);
                }
                assert(keys[0] == keys[0]);
            }
        }
        assert(live(store, now, keys[0]));
    }
}

/// Clearing, once the store has listed keys that are live and distinct,
/// removes every one of them and reports how many they were.
pub proof fn lemma_clear_counts_listed_keys(
    store: Map<Seq<char>, Slot>,
    now: nat,
    keys: Seq<Seq<char>>,
    decodes: spec_fn(Seq<char>) -> bool,
)
    requires
        all_live_once(store, now, keys),
        keys.len() <= u32::MAX,
    ensures
        run(
            next_step(WaitingView::List, EventView::Keys(keys)),
            store,
            now,
            decodes,
            keys.len(),
        ) == (store.remove_keys(keys.to_set()), Some(OutcomeView::Cleared(keys.len()))),
{
    lemma_sweep_counts_each_key(store, now, keys, 0, decodes);
}

} // verus!
