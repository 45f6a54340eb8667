//! The cache facade: envelopes, their keys, and the operations on the store,
//! each as a conversation of requests and events.

use vstd::prelude::*;

use crate::key::cache_key;
use crate::key::compose_key;
use crate::key::sha256_digest;
use crate::protocol::Event;
use crate::protocol::EventView;
use crate::protocol::Outcome;
use crate::protocol::OutcomeView;
use crate::protocol::Request;
use crate::protocol::RequestView;
use crate::protocol::Step;
use crate::protocol::StepView;
use crate::protocol::Waiting;
use crate::protocol::WaitingView;
use crate::stats::info_entries;
use crate::stats::parse_info;
use crate::stats::unavailable_entries;
use crate::stats::unavailable_info;
use crate::stats::CacheInfo;

verus! {

/// A moment in time: whole seconds since the start of 1970 in UTC, and the
/// nanoseconds into that second.
#[derive(Clone, Copy, Debug, PartialEq, Eq, Structural)]
pub struct Timestamp {
    pub secs: i64,
    pub nanos: u32,
}

/// A cached value in its envelope: the value, the moment at which it was
/// cached, and the key under which it is stored.
#[derive(Debug, Clone)]
pub struct CachedResponse<T> {
    pub data: T,
    pub cached_at: Timestamp,
    pub cache_key: String,
}

impl<T> CachedResponse<T> {
    /// Wraps `data` for storing under `cache_key`, cached at the moment
    /// `cached_at`.
    pub fn new(data: T, cache_key: String, cached_at: Timestamp) -> (envelope: Self)
        ensures
            envelope.data == data,
            envelope.cache_key == cache_key,
            envelope.cached_at == cached_at,
    {
        CachedResponse { data, cached_at, cache_key }
    }
}

/// How reading an entry begins.
pub open spec fn get_start(available: bool, key: Seq<char>) -> StepView {
    if available {
        StepView::Ask { request: RequestView::Get { key }, waiting: WaitingView::Fetch { key } }
    } else {
        StepView::Finish(OutcomeView::Miss)
    }
}

/// How storing an entry begins.
pub open spec fn set_start(available: bool, seconds: nat, key: Seq<char>, value: Seq<char>)
    -> StepView {
    if available {
        StepView::Ask {
            request: RequestView::SetEx { key, value, seconds },
            waiting: WaitingView::Store,
        }
    } else {
        StepView::Finish(OutcomeView::Stored(false))
    }
}

/// How deleting an entry begins.
pub open spec fn delete_start(available: bool, key: Seq<char>) -> StepView {
    if available {
        StepView::Ask { request: RequestView::Del { key }, waiting: WaitingView::Remove }
    } else {
        StepView::Finish(OutcomeView::Removed(false))
    }
}

/// How deleting the entries that match a pattern begins.
pub open spec fn clear_start(available: bool, pattern: Seq<char>) -> StepView {
    if available {
        StepView::Ask { request: RequestView::Keys { pattern }, waiting: WaitingView::List }
    } else {
        StepView::Finish(OutcomeView::Cleared(0))
    }
}

/// How asking for the store's report begins.
pub open spec fn info_start(available: bool) -> StepView {
    if available {
        StepView::Ask { request: RequestView::InfoMemory, waiting: WaitingView::Info }
    } else {
        StepView::Finish(OutcomeView::Stats(unavailable_entries()))
    }
}

/// Deleting the listed keys one after the other, `deleted` entries being
/// gone already: ask for the first, or end if none is left.
pub open spec fn sweep_step(keys: Seq<Seq<char>>, deleted: nat) -> StepView {
    if keys.len() == 0 {
        StepView::Finish(OutcomeView::Cleared(deleted))
    } else {
        StepView::Ask {
            request: RequestView::Del { key: keys[0] },
            waiting: WaitingView::Sweep { rest: keys.skip(1), deleted },
        }
    }
}

/// The count of deleted entries after `gained` more, held at the most that
/// the count can show.
pub open spec fn counted(deleted: nat, gained: nat) -> nat {
    if deleted + gained > u32::MAX {
        u32::MAX as nat
    } else {
        deleted + gained
    }
}

/// How many entries an event reports as deleted.
pub open spec fn gained(event: EventView) -> nat {
    match event {
        EventView::Count(count) => count,
        _ => 0,
    }
}

/// How an operation that waits in `waiting` goes on when `event` arrives.
///
/// A read that finds a text has it decoded. What does not decode, and what
/// is no text at all, is deleted, and the read ends as a miss, as it does
/// when nothing is found.
/// Storing succeeds exactly when the store says it is done. A deletion
/// succeeds when the store counts at least one entry gone. Clearing deletes
/// the listed keys one by one and adds the counts up; a deletion that fails
/// counts nothing and stops nothing, and a listing that fails lists nothing.
/// A report that cannot be had is an empty report.
pub open spec fn next_step(waiting: WaitingView, event: EventView) -> StepView {
    match waiting {
        WaitingView::Fetch { key } => match event {
            EventView::Text(text) => StepView::Ask {
                request: RequestView::Decode { text },
                waiting: WaitingView::Decode { key },
            },
            EventView::Unreadable => StepView::Ask {
                request: RequestView::Del { key },
                waiting: WaitingView::Purge,
            },
            _ => StepView::Finish(OutcomeView::Miss),
        },
        WaitingView::Decode { key } => match event {
            EventView::Decoded(true) => StepView::Finish(OutcomeView::Hit),
            EventView::Decoded(false) => StepView::Ask {
                request: RequestView::Del { key },
                waiting: WaitingView::Purge,
            },
            _ => StepView::Finish(OutcomeView::Miss),
        },
        WaitingView::Purge => StepView::Finish(OutcomeView::Miss),
        WaitingView::Store => StepView::Finish(OutcomeView::Stored(event is Done)),
        WaitingView::Remove => StepView::Finish(OutcomeView::Removed(gained(event) > 0)),
        WaitingView::List => match event {
            EventView::Keys(keys) => sweep_step(keys, 0),
            _ => StepView::Finish(OutcomeView::Cleared(0)),
        },
        WaitingView::Sweep { rest, deleted } => sweep_step(rest, counted(deleted, gained(event))),
        WaitingView::Info => match event {
            EventView::Text(text) => StepView::Finish(OutcomeView::Stats(info_entries(text))),
            _ => StepView::Finish(
                OutcomeView::Stats(Map::<Seq<char>, Seq<char>>::empty()),
            ),
        },
    }
}

/// The keys of `keys` from position `at` on.
pub open spec fn keys_from(keys: Seq<Seq<char>>, at: int) -> Seq<Seq<char>> {
    if 0 <= at <= keys.len() {
        keys.skip(at)
    } else {
        Seq::empty()
    }
}

/// Goes on deleting with `keys[at]`, or ends if `at` is past the last key.
fn sweep(keys: Vec<String>, at: usize, deleted: u32) -> (step: Step)
    ensures
        step@ == sweep_step(keys_from(keys.deep_view(), at as int), deleted as nat),
        step.wf(),
{
    if at < keys.len() {
        let key = keys[at].clone();
        proof {
            let all = keys.deep_view();
            assert(all[at as int] == keys@[at as int]@);
            assert(all.skip(at as int)[0] == key@);
            assert(all.skip(at as int).skip(1) =~= all.skip(at + 1));
        }
        Step::Ask {
            request: Request::Del { key },
            waiting: Waiting::Sweep { keys, next: at, deleted },
        }
    } else {
        proof {
            let all = keys.deep_view();
            assert(keys_from(all, at as int) =~= Seq::<Seq<char>>::empty());
        }
        Step::Finish(Outcome::Cleared(deleted))
    }
}

/// The cache facade. It knows whether a store is connected and how long an
/// entry lives, and turns each cache operation into requests to the store.
#[derive(Debug, Clone, Copy)]
pub struct CacheManager {
    available: bool,
    ttl_seconds: u64,
}

impl CacheManager {
    /// Whether a store is connected.
    pub closed spec fn available(&self) -> bool {
        self.available
    }

    /// The lifetime of an entry, in seconds.
    pub closed spec fn ttl(&self) -> nat {
        self.ttl_seconds as nat
    }

    /// A facade for a store that is connected or not, in which an entry
    /// lives for `ttl_seconds`.
    pub fn new(available: bool, ttl_seconds: u64) -> (manager: Self)
        ensures
            manager.available() == available,
            manager.ttl() == ttl_seconds as nat,
    {
        CacheManager { available, ttl_seconds }
    }

    /// Whether a store is connected.
    pub fn is_available(&self) -> (available: bool)
        ensures
            available == self.available(),
    {
        self.available
    }

    /// The lifetime of an entry, in seconds.
    pub fn ttl_seconds(&self) -> (seconds: u64)
        ensures
            seconds as nat == self.ttl(),
    {
        self.ttl_seconds
    }

    /// The cache key of a request under a prefix: the prefix, a colon, and
    /// the SHA-256 digest of the request's JSON text in lower-case
    /// hexadecimal.
    pub fn generate_cache_key(prefix: &str, request_json: &str) -> (key: String)
        ensures
            key@ == cache_key(prefix@, request_json@),
            key@.len() == prefix@.len() + 65,
    {
        let digest = sha256_digest(request_json.as_bytes());
        compose_key(prefix, digest.as_slice())
    }

    /// Begins reading the entry stored under `key`.
    pub fn get(&self, key: &str) -> (step: Step)
        ensures
            step@ == get_start(self.available(), key@),
            step.wf(),
    {
        if self.available {
            Step::Ask {
                request: Request::Get { key: key.to_owned() },
                waiting: Waiting::Fetch { key: key.to_owned() },
            }
        } else {
            Step::Finish(Outcome::Miss)
        }
    }

    /// Begins storing `serialized`, the JSON text of an envelope, under
    /// `key`, to expire after the configured lifetime.
    pub fn set(&self, key: &str, serialized: String) -> (step: Step)
        ensures
            step@ == set_start(self.available(), self.ttl(), key@, serialized@),
            step.wf(),
    {
        if self.available {
            Step::Ask {
                request: Request::SetEx {
                    key: key.to_owned(),
                    value: serialized,
                    seconds: self.ttl_seconds,
                },
                waiting: Waiting::Store,
            }
        } else {
            Step::Finish(Outcome::Stored(false))
        }
    }

    /// Wraps `response_data` in the envelope under which it is cached for the
    /// request: the key is that of the request under `cache_prefix`, the
    /// moment is `cached_at`. The envelope is returned whether or not it is
    /// stored afterwards.
    pub fn cache_response<T>(
        &self,
        cache_prefix: &str,
        request_json: &str,
        response_data: T,
        cached_at: Timestamp,
    ) -> (envelope: CachedResponse<T>)
        ensures
            envelope.data == response_data,
            envelope.cache_key@ == cache_key(cache_prefix@, request_json@),
            envelope.cached_at == cached_at,
    {
        let key = Self::generate_cache_key(cache_prefix, request_json);
        CachedResponse::new(response_data, key, cached_at)
    }

    /// Begins storing `serialized`, the JSON text of `envelope`, under the
    /// key that the envelope names.
    pub fn store_response<T>(
        &self,
        envelope: &CachedResponse<T>,
        serialized: String,
    ) -> (step: Step)
        ensures
            step@ == set_start(self.available(), self.ttl(), envelope.cache_key@, serialized@),
            step.wf(),
    {
        self.set(envelope.cache_key.as_str(), serialized)
    }

    /// Begins reading the entry cached for a request under `cache_prefix`.
    pub fn get_cached_response(&self, cache_prefix: &str, request_json: &str) -> (step: Step)
        ensures
            step@ == get_start(self.available(), cache_key(cache_prefix@, request_json@)),
            step.wf(),
    {
        let key = Self::generate_cache_key(cache_prefix, request_json);
        self.get(key.as_str())
    }

    /// Begins deleting the entry stored under `key`.
    pub fn delete(&self, key: &str) -> (step: Step)
        ensures
            step@ == delete_start(self.available(), key@),
            step.wf(),
    {
        if self.available {
            Step::Ask { request: Request::Del { key: key.to_owned() }, waiting: Waiting::Remove }
        } else {
            Step::Finish(Outcome::Removed(false))
        }
    }

    /// Begins deleting the entries whose keys match the glob `pattern`.
    pub fn clear_pattern(&self, pattern: &str) -> (step: Step)
        ensures
            step@ == clear_start(self.available(), pattern@),
            step.wf(),
    {
        if self.available {
            Step::Ask {
                request: Request::Keys { pattern: pattern.to_owned() },
                waiting: Waiting::List,
            }
        } else {
            Step::Finish(Outcome::Cleared(0))
        }
    }

    /// Begins asking the store for its report.
    pub fn get_cache_info(&self) -> (step: Step)
        ensures
            step@ == info_start(self.available()),
            step.wf(),
    {
        if self.available {
            Step::Ask { request: Request::InfoMemory, waiting: Waiting::Info }
        } else {
            Step::Finish(Outcome::Stats(unavailable_info()))
        }
    }

    /// Resumes the operation that waits in `waiting` with the event that
    /// answers its request.
    pub fn resume(waiting: Waiting, event: Event) -> (step: Step)
        ensures
            step@ == next_step(waiting@, event@),
            step.wf(),
    {
        match waiting {
            Waiting::Fetch { key } => match event {
                Event::Text(text) => Step::Ask {
                    request: Request::Decode { text },
                    waiting: Waiting::Decode { key },
                },
                Event::Unreadable => Step::Ask {
                    request: Request::Del { key },
                    waiting: Waiting::Purge,
                },
                _ => Step::Finish(Outcome::Miss),
            },
            Waiting::Decode { key } => match event {
                Event::Decoded(true) => Step::Finish(Outcome::Hit),
                Event::Decoded(false) => Step::Ask {
                    request: Request::Del { key },
                    waiting: Waiting::Purge,
                },
                _ => Step::Finish(Outcome::Miss),
            },
            Waiting::Purge => Step::Finish(Outcome::Miss),
            Waiting::Store => match event {
                Event::Done => Step::Finish(Outcome::Stored(true)),
                _ => Step::Finish(Outcome::Stored(false)),
            },
            Waiting::Remove => match event {
                Event::Count(count) => Step::Finish(Outcome::Removed(count > 0)),
                _ => Step::Finish(Outcome::Removed(false)),
            },
            Waiting::List => match event {
                Event::Keys(keys) => {
                    assert(keys.deep_view().skip(0) =~= keys.deep_view());
                    sweep(keys, 0, 0)
                },
                _ => Step::Finish(Outcome::Cleared(0)),
            },
            Waiting::Sweep { keys, next, deleted } => {
                let more: u32 = match event {
                    Event::Count(count) => count,
                    _ => 0,
                };
                let total = deleted.saturating_add(more);
                if next < keys.len() {
                    sweep(keys, next + 1, total)
                } else {
                    Step::Finish(Outcome::Cleared(total))
                }
            },
            Waiting::Info => match event {
                Event::Text(text) => Step::Finish(Outcome::Stats(parse_info(text.as_str()))),
                _ => Step::Finish(Outcome::Stats(CacheInfo::new())),
            },
        }
    }
}

} // verus!
