//! Member discovery: the cached member list, or else the usernames that the
//! leaderboard page lists, written back to the store for later calls.

use vstd::prelude::*;
use crate::codec::{MEMBER_SEPARATOR, encode_members, decode_members, join_with, split_on, texts};
use crate::config::{HANDLE_PATTERN, MEMBER_LIST_TTL_SECONDS, REDIS_LEADERBOARD_MEMBERS_KEY};
use crate::protocol::{Act, Action, CacheWrite, Ev, Event, PipelineError, copy_texts, opt_texts, present, present_texts};

verus! {

#[verifier::external_type_specification]
#[verifier::external_body]
pub struct ExRegexError(regex::Error);

/// Whether the regular-expression engine accepts a pattern.
pub uninterp spec fn pattern_compiles(pattern: Seq<char>) -> bool;

/// For each successive non-overlapping match of `pattern` in `haystack`, from
/// left to right, the text of its first group, or `None` where that group took no part.
pub uninterp spec fn first_groups(pattern: Seq<char>, haystack: Seq<char>) -> Seq<Option<Seq<char>>>;

/// Relies on `regex::Regex::new`, which accepts or rejects a pattern by its
/// text alone (its syntax, and a size limit far above a pattern of a few dozen
/// characters), and on `Regex::captures_iter` with `Captures::get(1)`, which
/// give the first group of every successive non-overlapping match. The handle
/// pattern is plain syntax (literal text, one group of `\w+`), so it is accepted.
#[verifier::external_body]
fn first_group_matches(pattern: &str, haystack: &str) -> (r: Result<Vec<Option<String>>, regex::Error>)
    ensures
        r is Ok <==> pattern_compiles(pattern@),
        pattern@ == HANDLE_PATTERN@ ==> r is Ok,
        r is Ok ==> opt_texts(r->Ok_0@) == first_groups(pattern@, haystack@),
{
    let re = regex::Regex::new(pattern)?;
    Ok(re.captures_iter(haystack).map(|c| c.get(1).map(|m| m.as_str().to_string())).collect())
}

/// The usernames that a leaderboard page lists, in page order: the first
/// group of every match of the handle pattern.
pub open spec fn page_handles(body: Seq<char>) -> Seq<Seq<char>> {
    present(first_groups(HANDLE_PATTERN@, body))
}

/// Reads the usernames off a leaderboard page, in page order.
pub fn extract_usernames(body: &str) -> (r: Vec<String>)
    ensures
        texts(r@) == page_handles(body@),
{
    match first_group_matches(HANDLE_PATTERN, body) {
        Ok(groups) => present_texts(&groups),
        Err(_) => {
            proof {
                assert(false);
            }
            Vec::new()
        },
    }
}

/// Address of the leaderboard page on a statistics server.
pub open spec fn leaderboard_url(domain: Seq<char>) -> Seq<char> {
    "https://"@ + domain + "/leaderboard"@
}

/// Address of a user's monthly statistics on a statistics server.
pub open spec fn stats_url(domain: Seq<char>, username: Seq<char>) -> Seq<char> {
    "https://"@ + domain + "/api/compat/wakatime/v1/users/"@ + username + "/stats/month"@
}

pub fn leaderboard_endpoint(domain: &str) -> (r: String)
    ensures
        r@ == leaderboard_url(domain@),
{
    let mut s = String::from_str("https://");
    s.append(domain);
    s.append("/leaderboard");
    s
}

pub fn stats_endpoint(domain: &str, username: &str) -> (r: String)
    ensures
        r@ == stats_url(domain@, username@),
{
    let mut s = String::from_str("https://");
    s.append(domain);
    s.append("/api/compat/wakatime/v1/users/");
    s.append(username);
    s.append("/stats/month");
    s
}

/// The steps of a member resolution.
#[derive(Debug, Clone, Copy, PartialEq, Eq, Structural)]
pub enum ResolvePhase {
    /// Waiting for the cached member list.
    AwaitCachedList,
    /// Waiting for the leaderboard page.
    AwaitPage,
    /// Waiting for the scraped list to be written to the store.
    AwaitListWrite,
    /// Done; no further event is expected.
    Finished,
}

/// Finds the current members: from the store when allowed and present, else
/// from the leaderboard page.
#[derive(Debug)]
pub struct MemberResolution {
    phase: ResolvePhase,
    page_url: String,
    members: Vec<String>,
}

pub struct ResolveState {
    pub phase: ResolvePhase,
    pub page_url: Seq<char>,
    pub members: Seq<Seq<char>>,
}

impl View for MemberResolution {
    type V = ResolveState;

    closed spec fn view(&self) -> ResolveState {
        ResolveState { phase: self.phase, page_url: self.page_url@, members: texts(self.members@) }
    }
}

/// The write that records a scraped member list, with its six-hour lifetime.
pub open spec fn member_list_write(ms: Seq<Seq<char>>) -> Act {
    Act::Write(seq![(REDIS_LEADERBOARD_MEMBERS_KEY@, join_with(ms, MEMBER_SEPARATOR), Some(MEMBER_LIST_TTL_SECONDS))])
}

pub open spec fn resolve_start(page_url: Seq<char>, use_cache: bool) -> (ResolveState, Act) {
    if use_cache {
        (
            ResolveState { phase: ResolvePhase::AwaitCachedList, page_url, members: Seq::empty() },
            Act::ReadKeys(seq![REDIS_LEADERBOARD_MEMBERS_KEY@]),
        )
    } else {
        (
            ResolveState { phase: ResolvePhase::AwaitPage, page_url, members: Seq::empty() },
            Act::FetchPage(page_url),
        )
    }
}

pub open spec fn resolve_finish(s: ResolveState, a: Act) -> (ResolveState, Act) {
    (ResolveState { phase: ResolvePhase::Finished, ..s }, a)
}

/// One step of a member resolution: the state after `e` and the next action.
pub open spec fn resolve_next(s: ResolveState, e: Ev) -> (ResolveState, Act) {
    match s.phase {
        ResolvePhase::AwaitCachedList => match e {
            Ev::KeysRead(vals) => if vals.len() != 1 {
                resolve_finish(s, Act::Fail(PipelineError::UnexpectedEvent))
            } else {
                match vals[0] {
                    Some(v) => resolve_finish(s, Act::Members(split_on(v, MEMBER_SEPARATOR), false)),
                    None => (ResolveState { phase: ResolvePhase::AwaitPage, ..s }, Act::FetchPage(s.page_url)),
                }
            },
            Ev::StoreFailed => resolve_finish(s, Act::Fail(PipelineError::Store)),
            _ => resolve_finish(s, Act::Fail(PipelineError::UnexpectedEvent)),
        },
        ResolvePhase::AwaitPage => match e {
            Ev::PageFetched(body) => {
                let hs = page_handles(body);
                if hs.len() == 0 {
                    resolve_finish(s, Act::Members(hs, false))
                } else {
                    (
                        ResolveState { phase: ResolvePhase::AwaitListWrite, members: hs, ..s },
                        member_list_write(hs),
                    )
                }
            },
            Ev::PageFailed => resolve_finish(s, Act::Fail(PipelineError::Scrape)),
            _ => resolve_finish(s, Act::Fail(PipelineError::UnexpectedEvent)),
        },
        ResolvePhase::AwaitListWrite => match e {
            Ev::Written => resolve_finish(s, Act::Members(s.members, false)),
            Ev::StoreFailed => resolve_finish(s, Act::Members(s.members, true)),
            _ => resolve_finish(s, Act::Fail(PipelineError::UnexpectedEvent)),
        },
        ResolvePhase::Finished => (s, Act::Fail(PipelineError::UnexpectedEvent)),
    }
}

impl MemberResolution {
    /// Begins a resolution for the page at `page_url`, reading the store first when `use_cache`.
    pub fn start(page_url: String, use_cache: bool) -> (r: (MemberResolution, Action))
        ensures
            (r.0@, r.1@) == resolve_start(page_url@, use_cache),
    {
        if use_cache {
            let mut keys: Vec<String> = Vec::new();
            keys.push(String::from_str(REDIS_LEADERBOARD_MEMBERS_KEY));
            proof {
                assert(texts(keys@) =~= seq![REDIS_LEADERBOARD_MEMBERS_KEY@]);
            }
            let m = MemberResolution { phase: ResolvePhase::AwaitCachedList, page_url, members: Vec::new() };
            proof {
                assert(texts(m.members@) =~= Seq::<Seq<char>>::empty());
            }
            (m, Action::ReadKeys(keys))
        } else {
            let url = page_url.clone();
            let m = MemberResolution { phase: ResolvePhase::AwaitPage, page_url, members: Vec::new() };
            proof {
                assert(texts(m.members@) =~= Seq::<Seq<char>>::empty());
            }
            (m, Action::FetchPage(url))
        }
    }

    pub fn is_finished(&self) -> (r: bool)
        ensures
            r == (self@.phase == ResolvePhase::Finished),
    {
        self.phase == ResolvePhase::Finished
    }

    fn finish(&mut self, a: Action) -> (r: Action)
        ensures
            (final(self)@, r@) == resolve_finish(old(self)@, a@),
    {
        self.phase = ResolvePhase::Finished;
        a
    }

    /// Takes the outcome of the last action and gives the next one.
    pub fn step(&mut self, event: Event) -> (r: Action)
        ensures
            (final(self)@, r@) == resolve_next(old(self)@, event@),
    {
        match self.phase {
            ResolvePhase::AwaitCachedList => match event {
                Event::KeysRead(vals) => {
                    if vals.len() != 1 {
                        self.finish(Action::Fail(PipelineError::UnexpectedEvent))
                    } else {
                        match &vals[0] {
                            Some(v) => {
                                let ms = decode_members(v.as_str());
                                self.finish(Action::Members(ms, false))
                            },
                            None => {
                                self.phase = ResolvePhase::AwaitPage;
                                Action::FetchPage(self.page_url.clone())
                            },
                        }
                    }
                },
                Event::StoreFailed => self.finish(Action::Fail(PipelineError::Store)),
                _ => self.finish(Action::Fail(PipelineError::UnexpectedEvent)),
            },
            ResolvePhase::AwaitPage => match event {
                Event::PageFetched(body) => {
                    let hs = extract_usernames(body.as_str());
                    if hs.len() == 0 {
                        self.finish(Action::Members(hs, false))
                    } else {
                        let joined = encode_members(&hs);
                        let mut writes: Vec<CacheWrite> = Vec::new();
                        writes.push(CacheWrite {
                            key: String::from_str(REDIS_LEADERBOARD_MEMBERS_KEY),
                            value: joined,
                            ttl_seconds: Some(MEMBER_LIST_TTL_SECONDS),
                        });
                        self.phase = ResolvePhase::AwaitListWrite;
                        self.members = hs;
                        let r = Action::Write(writes);
                        proof {
                            assert(r@ == member_list_write(texts(self.members@))) by {
                                if let Act::Write(w) = r@ {
                                    assert(w =~= seq![(REDIS_LEADERBOARD_MEMBERS_KEY@, join_with(texts(self.members@), MEMBER_SEPARATOR), Some(MEMBER_LIST_TTL_SECONDS))]);
                                }
                            }
                        }
                        r
                    }
                },
                Event::PageFailed => self.finish(Action::Fail(PipelineError::Scrape)),
                _ => self.finish(Action::Fail(PipelineError::UnexpectedEvent)),
            },
            ResolvePhase::AwaitListWrite => match event {
                Event::Written => {
                    let ms = copy_texts(&self.members);
                    self.finish(Action::Members(ms, false))
                },
                Event::StoreFailed => {
                    let ms = copy_texts(&self.members);
                    self.finish(Action::Members(ms, true))
                },
                _ => self.finish(Action::Fail(PipelineError::UnexpectedEvent)),
            },
            ResolvePhase::Finished => Action::Fail(PipelineError::UnexpectedEvent),
        }
    }
}

/// With the member list in the store, a resolution that may use the store
/// answers with exactly the cached list, and neither then nor afterwards asks
/// for the leaderboard page.
pub proof fn lemma_cached_list_short_circuits(page_url: Seq<char>, cached: Seq<char>, later: Ev)
    ensures
        resolve_start(page_url, true).1 == Act::ReadKeys(seq![REDIS_LEADERBOARD_MEMBERS_KEY@]),
        resolve_next(resolve_start(page_url, true).0, Ev::KeysRead(seq![Some(cached)])).1
            == Act::Members(split_on(cached, MEMBER_SEPARATOR), false),
        resolve_next(resolve_next(resolve_start(page_url, true).0, Ev::KeysRead(seq![Some(cached)])).0, later).1
            == Act::Fail(PipelineError::UnexpectedEvent),
{
}

/// With no member list in the store, a resolution that may use the store
/// fetches the page once; when the page lists usernames it writes them,
/// joined, with a six-hour lifetime, and answers with all of them in page
/// order, whether or not the write succeeded.
pub proof fn lemma_cold_cache_scrapes(page_url: Seq<char>, body: Seq<char>, write_outcome: Ev, later: Ev)
    requires
        write_outcome == Ev::Written || write_outcome == Ev::StoreFailed,
    ensures
        ({
            let (s1, a1) = resolve_start(page_url, true);
            let (s2, a2) = resolve_next(s1, Ev::KeysRead(seq![None]));
            let (s3, a3) = resolve_next(s2, Ev::PageFetched(body));
            let (s4, a4) = resolve_next(s3, write_outcome);
            &&& a1 == Act::ReadKeys(seq![REDIS_LEADERBOARD_MEMBERS_KEY@])
            &&& a2 == Act::FetchPage(page_url)
            &&& if page_handles(body).len() == 0 {
                &&& a3 == Act::Members(page_handles(body), false)
                &&& resolve_next(s3, later).1 == Act::Fail(PipelineError::UnexpectedEvent)
            } else {
                &&& a3 == Act::Write(seq![(REDIS_LEADERBOARD_MEMBERS_KEY@, join_with(page_handles(body), MEMBER_SEPARATOR), Some((6 * 60 * 60) as u64))])
                &&& a4 == Act::Members(page_handles(body), write_outcome == Ev::StoreFailed)
                &&& resolve_next(s4, later).1 == Act::Fail(PipelineError::UnexpectedEvent)
            }
        }),
{
}

/// A member list that a resolution wrote to the store, read back by a later
/// resolution, gives the same usernames in the same order, provided no
/// username holds the separator.
pub proof fn lemma_written_list_reads_back(page_url: Seq<char>, other_url: Seq<char>, body: Seq<char>)
    requires
        forall|i: int| 0 <= i < page_handles(body).len()
            ==> crate::codec::free_of(#[trigger] page_handles(body)[i], MEMBER_SEPARATOR),
    ensures
        ({
            let hs = page_handles(body);
            let (s1, a1) = resolve_start(page_url, false);
            let (s2, a2) = resolve_next(s1, Ev::PageFetched(body));
            hs.len() > 0 ==> {
                &&& a2 == member_list_write(hs)
                &&& resolve_next(resolve_start(other_url, true).0, Ev::KeysRead(seq![Some(join_with(hs, MEMBER_SEPARATOR))])).1
                    == Act::Members(hs, false)
            }
        }),
{
    let hs = page_handles(body);
    if hs.len() > 0 {
        crate::codec::lemma_member_list_round_trip(hs);
    }
}

} // verus!
