//! What the aggregation asks of the outside world, and what it is told back.

use vstd::prelude::*;
use crate::codec::texts;
use crate::models::{Stat, UserInfo, stats};

verus! {

/// Why a member resolution or an aggregation stopped.
#[derive(Debug, Clone, Copy, PartialEq, Eq, Structural)]
pub enum PipelineError {
    /// The key-value store failed, or held a value that does not decode.
    Store,
    /// The leaderboard page could not be fetched or read.
    Scrape,
    /// An event arrived that the current step does not wait for.
    UnexpectedEvent,
}

/// One write to the key-value store, with a lifetime or without one.
#[derive(Debug, Clone, PartialEq, Eq)]
pub struct CacheWrite {
    pub key: String,
    pub value: String,
    pub ttl_seconds: Option<u64>,
}

pub type WriteView = (Seq<char>, Seq<char>, Option<u64>);

impl View for CacheWrite {
    type V = WriteView;

    open spec fn view(&self) -> WriteView {
        (self.key@, self.value@, self.ttl_seconds)
    }
}

pub open spec fn writes_view(v: Seq<CacheWrite>) -> Seq<WriteView> {
    v.map_values(|w: CacheWrite| w@)
}

/// The next thing to do on behalf of a resolution or an aggregation.
#[derive(Debug, Clone, PartialEq, Eq)]
pub enum Action {
    /// Read each key from the store, answering `Event::KeysRead` in the same order.
    ReadKeys(Vec<String>),
    /// Fetch the page at this address, answering `Event::PageFetched`.
    FetchPage(String),
    /// Perform these writes in order, answering `Event::Written`.
    Write(Vec<CacheWrite>),
    /// Fetch the monthly statistics of each of these users, all at once,
    /// answering `Event::StatsFetched`.
    FetchStats(Vec<String>),
    /// The member list is known; the flag tells that writing it to the store failed.
    Members(Vec<String>, bool),
    /// The ranked leaderboard.
    Leaderboard(Vec<UserInfo>),
    /// The work stopped.
    Fail(PipelineError),
}

/// An action as plain values.
pub enum Act {
    ReadKeys(Seq<Seq<char>>),
    FetchPage(Seq<char>),
    Write(Seq<WriteView>),
    FetchStats(Seq<Seq<char>>),
    Members(Seq<Seq<char>>, bool),
    Leaderboard(Seq<Stat>),
    Fail(PipelineError),
}

impl View for Action {
    type V = Act;

    open spec fn view(&self) -> Act {
        match self {
            Action::ReadKeys(v) => Act::ReadKeys(texts(v@)),
            Action::FetchPage(u) => Act::FetchPage(u@),
            Action::Write(w) => Act::Write(writes_view(w@)),
            Action::FetchStats(v) => Act::FetchStats(texts(v@)),
            Action::Members(v, f) => Act::Members(texts(v@), *f),
            Action::Leaderboard(v) => Act::Leaderboard(stats(v@)),
            Action::Fail(e) => Act::Fail(*e),
        }
    }
}

/// What came of the last action.
#[derive(Debug, Clone, PartialEq, Eq)]
pub enum Event {
    /// The values found under the keys asked for, in order; `None` for an absent key.
    KeysRead(Vec<Option<String>>),
    /// A read or a write of the store failed.
    StoreFailed,
    /// The body of the page.
    PageFetched(String),
    /// The page could not be fetched or its body read.
    PageFailed,
    /// All the writes asked for were made.
    Written,
    /// One entry per user asked for, `None` where the fetch failed; and the
    /// current time as text, to record as the time of the last update.
    StatsFetched(Vec<Option<UserInfo>>, String),
}

/// An event as plain values.
pub enum Ev {
    KeysRead(Seq<Option<Seq<char>>>),
    StoreFailed,
    PageFetched(Seq<char>),
    PageFailed,
    Written,
    StatsFetched(Seq<Option<Stat>>, Seq<char>),
}

pub open spec fn opt_texts(v: Seq<Option<String>>) -> Seq<Option<Seq<char>>> {
    v.map_values(|o: Option<String>| match o {
        Some(s) => Some(s@),
        None => None,
    })
}

pub open spec fn opt_stats(v: Seq<Option<UserInfo>>) -> Seq<Option<Stat>> {
    v.map_values(|o: Option<UserInfo>| match o {
        Some(u) => Some(u@),
        None => None,
    })
}

impl View for Event {
    type V = Ev;

    open spec fn view(&self) -> Ev {
        match self {
            Event::KeysRead(v) => Ev::KeysRead(opt_texts(v@)),
            Event::StoreFailed => Ev::StoreFailed,
            Event::PageFetched(b) => Ev::PageFetched(b@),
            Event::PageFailed => Ev::PageFailed,
            Event::Written => Ev::Written,
            Event::StatsFetched(v, t) => Ev::StatsFetched(opt_stats(v@), t@),
        }
    }
}

/// The entries that are present, in order.
pub open spec fn present<T>(v: Seq<Option<T>>) -> Seq<T>
    decreases v.len(),
{
    if v.len() == 0 {
        Seq::<T>::empty()
    } else {
        let r = present(v.drop_last());
        match v.last() {
            Some(x) => r.push(x),
            None => r,
        }
    }
}

/// A copy of a list of strings.
pub fn copy_texts(v: &Vec<String>) -> (r: Vec<String>)
    ensures
        texts(r@) == texts(v@),
{
    let mut out: Vec<String> = Vec::new();
    let mut i: usize = 0;
    while i < v.len()
        invariant
            i <= v@.len(),
            texts(out@) == texts(v@.subrange(0, i as int)),
        decreases v@.len() - i,
    {
        let ghost before = out@;
        out.push(v[i].clone());
        proof {
            assert(texts(out@) =~= texts(before).push(v@[i as int]@));
            assert(texts(v@.subrange(0, i + 1)) =~= texts(v@.subrange(0, i as int)).push(v@[i as int]@));
        }
        i = i + 1;
    }
    proof {
        assert(v@.subrange(0, v@.len() as int) =~= v@);
    }
    out
}

/// The strings that are present, in order.
pub fn present_texts(v: &Vec<Option<String>>) -> (r: Vec<String>)
    ensures
        texts(r@) == present(opt_texts(v@)),
{
    let mut out: Vec<String> = Vec::new();
    let mut i: usize = 0;
    while i < v.len()
        invariant
            i <= v@.len(),
            texts(out@) == present(opt_texts(v@.subrange(0, i as int))),
        decreases v@.len() - i,
    {
        let ghost before = out@;
        proof {
            assert(opt_texts(v@.subrange(0, i + 1)).drop_last() =~= opt_texts(v@.subrange(0, i as int)));
        }
        match &v[i] {
            Some(s) => {
                out.push(s.clone());
                proof {
                    assert(texts(out@) =~= texts(before).push(s@));
                }
            },
            None => {},
        }
        i = i + 1;
    }
    proof {
        assert(v@.subrange(0, v@.len() as int) =~= v@);
    }
    out
}

/// The statistics that are present, in order.
pub fn present_stats(v: &Vec<Option<UserInfo>>) -> (r: Vec<UserInfo>)
    ensures
        stats(r@) == present(opt_stats(v@)),
{
    let mut out: Vec<UserInfo> = Vec::new();
    let mut i: usize = 0;
    while i < v.len()
        invariant
            i <= v@.len(),
            stats(out@) == present(opt_stats(v@.subrange(0, i as int))),
        decreases v@.len() - i,
    {
        let ghost before = out@;
        proof {
            assert(opt_stats(v@.subrange(0, i + 1)).drop_last() =~= opt_stats(v@.subrange(0, i as int)));
        }
        match &v[i] {
            Some(u) => {
                out.push(u.duplicate());
                proof {
                    assert(stats(out@) =~= stats(before).push(u@));
                }
            },
            None => {},
        }
        i = i + 1;
    }
    proof {
        assert(v@.subrange(0, v@.len() as int) =~= v@);
    }
    out
}

} // verus!
