//! The conversation between a cache operation and whoever talks to the store.
//!
//! An operation never touches the store. It hands out a [`Request`], waits in
//! a state of [`Waiting`], and is resumed with the [`Event`] that answers the
//! request, until it ends in an [`Outcome`].

use vstd::prelude::*;

use crate::stats::CacheInfo;

verus! {

/// What an operation asks for next.
#[derive(Debug)]
pub enum Request {
    /// Read the text stored under `key`.
    Get { key: String },
    /// Store `value` under `key`, to expire after `seconds`.
    SetEx { key: String, value: String, seconds: u64 },
    /// Delete `key`.
    Del { key: String },
    /// List the keys that match the glob `pattern`.
    Keys { pattern: String },
    /// Report the store's memory figures.
    InfoMemory,
    /// Decode `text`, the stored form of an entry, and say whether it decodes.
    Decode { text: String },
}

/// A request as a mathematical value.
pub enum RequestView {
    Get { key: Seq<char> },
    SetEx { key: Seq<char>, value: Seq<char>, seconds: nat },
    Del { key: Seq<char> },
    Keys { pattern: Seq<char> },
    InfoMemory,
    Decode { text: Seq<char> },
}

impl View for Request {
    type V = RequestView;

    open spec fn view(&self) -> RequestView {
        match *self {
            Request::Get { key } => RequestView::Get { key: key@ },
            Request::SetEx { key, value, seconds } => RequestView::SetEx {
                key: key@,
                value: value@,
                seconds: seconds as nat,
            },
            Request::Del { key } => RequestView::Del { key: key@ },
            Request::Keys { pattern } => RequestView::Keys { pattern: pattern@ },
            Request::InfoMemory => RequestView::InfoMemory,
            Request::Decode { text } => RequestView::Decode { text: text@ },
        }
    }
}

/// What came back for a request.
#[derive(Debug)]
pub enum Event {
    /// The store answered with a text.
    Text(String),
    /// The store answered with bytes that are no text.
    Unreadable,
    /// The store answered with a count.
    Count(u32),
    /// The store answered with a list of keys.
    Keys(Vec<String>),
    /// The store carried the request out and had nothing to say.
    Done,
    /// The store could not be asked, or answered with an error or with
    /// something of another kind than the request calls for.
    Failed,
    /// Whether the text of a `Decode` request decoded.
    Decoded(bool),
}

/// An event as a mathematical value.
pub enum EventView {
    Text(Seq<char>),
    Unreadable,
    Count(nat),
    Keys(Seq<Seq<char>>),
    Done,
    Failed,
    Decoded(bool),
}

impl View for Event {
    type V = EventView;

    open spec fn view(&self) -> EventView {
        match *self {
            Event::Text(text) => EventView::Text(text@),
            Event::Unreadable => EventView::Unreadable,
            Event::Count(count) => EventView::Count(count as nat),
            Event::Keys(keys) => EventView::Keys(keys.deep_view()),
            Event::Done => EventView::Done,
            Event::Failed => EventView::Failed,
            Event::Decoded(ok) => EventView::Decoded(ok),
        }
    }
}

/// What an operation in flight is waiting for.
#[derive(Debug)]
pub enum Waiting {
    /// The text stored under `key`.
    Fetch { key: String },
    /// Whether the text found under `key` decodes.
    Decode { key: String },
    /// The deletion of an entry that did not decode.
    Purge,
    /// The storing of an entry.
    Store,
    /// The deletion of an entry.
    Remove,
    /// The keys that match a pattern.
    List,
    /// The deletion of `keys[next]`, with `deleted` entries gone so far and
    /// the keys behind `next` still to go.
    Sweep { keys: Vec<String>, next: usize, deleted: u32 },
    /// The store's report.
    Info,
}

/// A waiting state as a mathematical value.
pub enum WaitingView {
    Fetch { key: Seq<char> },
    Decode { key: Seq<char> },
    Purge,
    Store,
    Remove,
    List,
    /// `rest` holds the keys still to go once the deletion in flight is
    /// answered.
    Sweep { rest: Seq<Seq<char>>, deleted: nat },
    Info,
}

/// The keys of `keys` that stand behind position `next`.
pub open spec fn keys_behind(keys: Seq<Seq<char>>, next: int) -> Seq<Seq<char>> {
    if 0 <= next < keys.len() {
        keys.skip(next + 1)
    } else {
        Seq::empty()
    }
}

impl View for Waiting {
    type V = WaitingView;

    open spec fn view(&self) -> WaitingView {
        match *self {
            Waiting::Fetch { key } => WaitingView::Fetch { key: key@ },
            Waiting::Decode { key } => WaitingView::Decode { key: key@ },
            Waiting::Purge => WaitingView::Purge,
            Waiting::Store => WaitingView::Store,
            Waiting::Remove => WaitingView::Remove,
            Waiting::List => WaitingView::List,
            Waiting::Sweep { keys, next, deleted } => WaitingView::Sweep {
                rest: keys_behind(keys.deep_view(), next as int),
                deleted: deleted as nat,
            },
            Waiting::Info => WaitingView::Info,
        }
    }
}

/// How an operation ended.
#[derive(Debug)]
pub enum Outcome {
    /// The entry was found and decoded.
    Hit,
    /// No entry could be had.
    Miss,
    /// Whether the entry was stored.
    Stored(bool),
    /// Whether an entry was deleted.
    Removed(bool),
    /// How many entries were deleted.
    Cleared(u32),
    /// What the store reports.
    Stats(CacheInfo),
}

/// An outcome as a mathematical value.
pub enum OutcomeView {
    Hit,
    Miss,
    Stored(bool),
    Removed(bool),
    Cleared(nat),
    Stats(Map<Seq<char>, Seq<char>>),
}

impl View for Outcome {
    type V = OutcomeView;

    open spec fn view(&self) -> OutcomeView {
        match *self {
            Outcome::Hit => OutcomeView::Hit,
            Outcome::Miss => OutcomeView::Miss,
            Outcome::Stored(ok) => OutcomeView::Stored(ok),
            Outcome::Removed(ok) => OutcomeView::Removed(ok),
            Outcome::Cleared(count) => OutcomeView::Cleared(count as nat),
            Outcome::Stats(table) => OutcomeView::Stats(table@),
        }
    }
}

/// Where an operation stands: it asks for something, or it has ended.
#[derive(Debug)]
pub enum Step {
    /// Carry out `request` and resume the operation from `waiting` with the
    /// event that answers it.
    Ask { request: Request, waiting: Waiting },
    /// The operation has ended.
    Finish(Outcome),
}

/// A step as a mathematical value.
pub enum StepView {
    Ask { request: RequestView, waiting: WaitingView },
    Finish(OutcomeView),
}

impl View for Step {
    type V = StepView;

    open spec fn view(&self) -> StepView {
        match *self {
            Step::Ask { request, waiting } => StepView::Ask {
                request: request@,
                waiting: waiting@,
            },
            Step::Finish(outcome) => StepView::Finish(outcome@),
        }
    }
}

impl Step {
    /// Whether the table of a final report, if this step holds one, is well
    /// formed.
    pub open spec fn wf(&self) -> bool {
        match *self {
            Step::Finish(Outcome::Stats(table)) => table.wf(),
            _ => true,
        }
    }
}

} // verus!
