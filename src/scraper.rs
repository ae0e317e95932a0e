//! The leaderboard pipeline: members, then each member's total from the store
//! or from the statistics server, written back and ranked.

use vstd::prelude::*;
use crate::codec::{decimal, decode_total, encode_decimal, texts, total_of};
use crate::config::{MEMBER_TOTAL_TTL_SECONDS, REDIS_LAST_UPDATE_KEY};
use crate::members::{MemberResolution, ResolveState, leaderboard_endpoint, leaderboard_url, member_list_write, page_handles, resolve_next, resolve_start};
use crate::models::{Stat, UserInfo, stats};
use crate::protocol::{Act, Action, CacheWrite, Ev, Event, PipelineError, WriteView, copy_texts, present, present_stats, writes_view};
use crate::ranking::{is_ranked, lemma_ranked_permutes, lemma_ranked_sorted, rank, ranked};

verus! {

/// The steps of an aggregation.
#[derive(Debug, Clone, Copy, PartialEq, Eq, Structural)]
pub enum AggregatePhase {
    /// Finding the members.
    Resolving,
    /// Waiting for the cached totals of the members.
    AwaitTotals,
    /// Waiting for the statistics of the members that the store did not answer for.
    AwaitStats,
    /// Waiting for the fresh totals to be written to the store.
    AwaitWrites,
    /// Done; no further event is expected.
    Finished,
}

/// Builds a ranked leaderboard of the members and their totals.
#[derive(Debug)]
pub struct Aggregation {
    phase: AggregatePhase,
    use_cache: bool,
    resolution: MemberResolution,
    members: Vec<String>,
    hits: Vec<UserInfo>,
    requested: Vec<String>,
    fresh: Vec<UserInfo>,
}

pub struct AggregateState {
    pub phase: AggregatePhase,
    pub use_cache: bool,
    pub resolution: ResolveState,
    pub members: Seq<Seq<char>>,
    pub hits: Seq<Stat>,
    pub requested: Seq<Seq<char>>,
    pub fresh: Seq<Stat>,
}

impl View for Aggregation {
    type V = AggregateState;

    closed spec fn view(&self) -> AggregateState {
        AggregateState {
            phase: self.phase,
            use_cache: self.use_cache,
            resolution: self.resolution@,
            members: texts(self.members@),
            hits: stats(self.hits@),
            requested: texts(self.requested@),
            fresh: stats(self.fresh@),
        }
    }
}

/// The members among the first `n` whose cached total was found, with that total.
pub open spec fn cached_hits(ms: Seq<Seq<char>>, vals: Seq<Option<Seq<char>>>, n: nat) -> Seq<Stat>
    decreases n,
{
    if n == 0 {
        Seq::empty()
    } else {
        let r = cached_hits(ms, vals, (n - 1) as nat);
        match vals[n - 1] {
            Some(v) => match total_of(v) {
                Some(t) => r.push((ms[n - 1], t)),
                None => r,
            },
            None => r,
        }
    }
}

/// The members among the first `n` whose total the store did not hold.
pub open spec fn cache_misses(ms: Seq<Seq<char>>, vals: Seq<Option<Seq<char>>>, n: nat) -> Seq<Seq<char>>
    decreases n,
{
    if n == 0 {
        Seq::empty()
    } else {
        let r = cache_misses(ms, vals, (n - 1) as nat);
        match vals[n - 1] {
            Some(v) => r,
            None => r.push(ms[n - 1]),
        }
    }
}

/// Every value that was found reads as a total.
pub open spec fn all_readable(vals: Seq<Option<Seq<char>>>) -> bool {
    forall|i: int| 0 <= i < vals.len() && (#[trigger] vals[i]) is Some ==> total_of(vals[i]->Some_0) is Some
}

/// For each fresh statistic, its total with a fifteen-minute lifetime, then the time of the update.
pub open spec fn fresh_writes(f: Seq<Stat>, stamp: Seq<char>) -> Seq<WriteView>
    decreases f.len(),
{
    if f.len() == 0 {
        Seq::empty()
    } else {
        fresh_writes(f.drop_last(), stamp)
            .push((f.last().0, decimal(f.last().1 as nat), Some(MEMBER_TOTAL_TTL_SECONDS)))
            .push((REDIS_LAST_UPDATE_KEY@, stamp, None))
    }
}

pub open spec fn aggregate_start(page_url: Seq<char>, use_cache: bool) -> (AggregateState, Act) {
    let (rs, a) = resolve_start(page_url, use_cache);
    (
        AggregateState {
            phase: AggregatePhase::Resolving,
            use_cache,
            resolution: rs,
            members: Seq::empty(),
            hits: Seq::empty(),
            requested: Seq::empty(),
            fresh: Seq::empty(),
        },
        a,
    )
}

pub open spec fn aggregate_finish(s: AggregateState, a: Act) -> (AggregateState, Act) {
    (AggregateState { phase: AggregatePhase::Finished, ..s }, a)
}

/// With the cached totals known: fetch the rest, or rank at once when nothing is left.
pub open spec fn dispatch(s: AggregateState, hits: Seq<Stat>, pending: Seq<Seq<char>>) -> (AggregateState, Act) {
    if pending.len() == 0 {
        aggregate_finish(AggregateState { hits, ..s }, Act::Leaderboard(ranked(hits)))
    } else {
        (AggregateState { phase: AggregatePhase::AwaitStats, hits, requested: pending, ..s }, Act::FetchStats(pending))
    }
}

/// With the members known: read their cached totals, or fetch all of them.
pub open spec fn after_members(s: AggregateState, ms: Seq<Seq<char>>) -> (AggregateState, Act) {
    let s1 = AggregateState { members: ms, ..s };
    if s.use_cache && ms.len() > 0 {
        (AggregateState { phase: AggregatePhase::AwaitTotals, ..s1 }, Act::ReadKeys(ms))
    } else {
        dispatch(s1, Seq::empty(), ms)
    }
}

/// One step of an aggregation: the state after `e` and the next action.
pub open spec fn aggregate_next(s: AggregateState, e: Ev) -> (AggregateState, Act) {
    match s.phase {
        AggregatePhase::Resolving => {
            let (rs, a) = resolve_next(s.resolution, e);
            let s1 = AggregateState { resolution: rs, ..s };
            match a {
                Act::Members(ms, _) => after_members(s1, ms),
                Act::Fail(err) => aggregate_finish(s1, Act::Fail(err)),
                _ => (s1, a),
            }
        },
        AggregatePhase::AwaitTotals => match e {
            Ev::KeysRead(vals) => if vals.len() != s.members.len() {
                aggregate_finish(s, Act::Fail(PipelineError::UnexpectedEvent))
            } else if !all_readable(vals) {
                aggregate_finish(s, Act::Fail(PipelineError::Store))
            } else {
                dispatch(
                    s,
                    cached_hits(s.members, vals, vals.len()),
                    cache_misses(s.members, vals, vals.len()),
                )
            },
            Ev::StoreFailed => aggregate_finish(s, Act::Fail(PipelineError::Store)),
            _ => aggregate_finish(s, Act::Fail(PipelineError::UnexpectedEvent)),
        },
        AggregatePhase::AwaitStats => match e {
            Ev::StatsFetched(results, stamp) => {
                let f = present(results);
                if results.len() != s.requested.len() {
                    aggregate_finish(s, Act::Fail(PipelineError::UnexpectedEvent))
                } else if f.len() == 0 {
                    aggregate_finish(s, Act::Leaderboard(ranked(s.hits)))
                } else {
                    (
                        AggregateState { phase: AggregatePhase::AwaitWrites, fresh: f, ..s },
                        Act::Write(fresh_writes(f, stamp)),
                    )
                }
            },
            _ => aggregate_finish(s, Act::Fail(PipelineError::UnexpectedEvent)),
        },
        AggregatePhase::AwaitWrites => match e {
            Ev::Written => aggregate_finish(s, Act::Leaderboard(ranked(s.hits + s.fresh))),
            Ev::StoreFailed => aggregate_finish(s, Act::Fail(PipelineError::Store)),
            _ => aggregate_finish(s, Act::Fail(PipelineError::UnexpectedEvent)),
        },
        AggregatePhase::Finished => (s, Act::Fail(PipelineError::UnexpectedEvent)),
    }
}

/// Splits the members by what the store answered: those with a cached total,
/// with that total, and those to fetch; `Err` where a found value is not a total.
pub fn split_cached(ms: &Vec<String>, vals: &Vec<Option<String>>) -> (r: Result<(Vec<UserInfo>, Vec<String>), PipelineError>)
    requires
        ms@.len() == vals@.len(),
    ensures
        match r {
            Ok((h, p)) => all_readable(crate::protocol::opt_texts(vals@))
                && stats(h@) == cached_hits(texts(ms@), crate::protocol::opt_texts(vals@), vals@.len())
                && texts(p@) == cache_misses(texts(ms@), crate::protocol::opt_texts(vals@), vals@.len()),
            Err(e) => !all_readable(crate::protocol::opt_texts(vals@)) && e == PipelineError::Store,
        },
{
    let ghost names = texts(ms@);
    let ghost found = crate::protocol::opt_texts(vals@);
    let mut hits: Vec<UserInfo> = Vec::new();
    let mut pending: Vec<String> = Vec::new();
    let mut i: usize = 0;
    while i < vals.len()
        invariant
            ms@.len() == vals@.len(),
            names == texts(ms@),
            found == crate::protocol::opt_texts(vals@),
            i <= vals@.len(),
            forall|k: int| 0 <= k < i && (#[trigger] found[k]) is Some ==> total_of(found[k]->Some_0) is Some,
            stats(hits@) == cached_hits(names, found, i as nat),
            texts(pending@) == cache_misses(names, found, i as nat),
        decreases vals@.len() - i,
    {
        let ghost h0 = hits@;
        let ghost p0 = pending@;
        match &vals[i] {
            Some(v) => {
                match decode_total(v.as_str()) {
                    Some(t) => {
                        hits.push(UserInfo { username: ms[i].clone(), total_seconds: t });
                        proof {
                            assert(stats(hits@) =~= stats(h0).push((names[i as int], t)));
                        }
                    },
                    None => {
                        proof {
                            assert(found[i as int] is Some);
                        }
                        return Err(PipelineError::Store);
                    },
                }
            },
            None => {
                pending.push(ms[i].clone());
                proof {
                    assert(texts(pending@) =~= texts(p0).push(names[i as int]));
                }
            },
        }
        i = i + 1;
    }
    Ok((hits, pending))
}

/// The writes that record fresh statistics and the time of the update.
pub fn make_fresh_writes(f: &Vec<UserInfo>, stamp: &String) -> (r: Vec<CacheWrite>)
    ensures
        writes_view(r@) == fresh_writes(stats(f@), stamp@),
{
    let mut out: Vec<CacheWrite> = Vec::new();
    let mut i: usize = 0;
    while i < f.len()
        invariant
            i <= f@.len(),
            writes_view(out@) == fresh_writes(stats(f@.subrange(0, i as int)), stamp@),
        decreases f@.len() - i,
    {
        let ghost o0 = out@;
        let w1 = CacheWrite {
            key: f[i].username.clone(),
            value: encode_decimal(f[i].total_seconds),
            ttl_seconds: Some(MEMBER_TOTAL_TTL_SECONDS),
        };
        let w2 = CacheWrite { key: String::from_str(REDIS_LAST_UPDATE_KEY), value: stamp.clone(), ttl_seconds: None };
        out.push(w1);
        out.push(w2);
        proof {
            let pre = stats(f@.subrange(0, i as int));
            let next = stats(f@.subrange(0, i + 1));
            assert(next.drop_last() =~= pre);
            assert(next.last() == f@[i as int]@);
            assert(writes_view(out@) =~= writes_view(o0).push(w1@).push(w2@));
        }
        i = i + 1;
    }
    proof {
        assert(f@.subrange(0, f@.len() as int) =~= f@);
    }
    out
}

fn join_stats(a: &Vec<UserInfo>, b: &Vec<UserInfo>) -> (r: Vec<UserInfo>)
    ensures
        stats(r@) == stats(a@) + stats(b@),
{
    let mut out: Vec<UserInfo> = Vec::new();
    let mut i: usize = 0;
    while i < a.len()
        invariant
            i <= a@.len(),
            stats(out@) == stats(a@.subrange(0, i as int)),
        decreases a@.len() - i,
    {
        let ghost o0 = out@;
        let x = a[i].duplicate();
        out.push(x);
        proof {
            assert(stats(out@) =~= stats(o0).push(x@));
            assert(stats(a@.subrange(0, i + 1)) =~= stats(a@.subrange(0, i as int)).push(a@[i as int]@));
            assert(stats(out@) =~= stats(a@.subrange(0, i + 1)));
        }
        i = i + 1;
    }
    let mut j: usize = 0;
    while j < b.len()
        invariant
            i == a@.len(),
            j <= b@.len(),
            stats(out@) == stats(a@) + stats(b@.subrange(0, j as int)),
        decreases b@.len() - j,
    {
        proof {
            assert(a@.subrange(0, i as int) =~= a@);
        }
        let ghost o0 = out@;
        let x = b[j].duplicate();
        out.push(x);
        proof {
            assert(stats(out@) =~= stats(o0).push(x@));
            assert(stats(b@.subrange(0, j + 1)) =~= stats(b@.subrange(0, j as int)).push(b@[j as int]@));
            assert(stats(out@) =~= stats(a@) + stats(b@.subrange(0, j + 1)));
        }
        j = j + 1;
    }
    proof {
        assert(a@.subrange(0, a@.len() as int) =~= a@);
        assert(b@.subrange(0, b@.len() as int) =~= b@);
    }
    out
}

impl Aggregation {
    /// Begins an aggregation for the page at `page_url`; with `use_cache` the
    /// store is asked first for the member list and for each member's total.
    pub fn start(page_url: String, use_cache: bool) -> (r: (Aggregation, Action))
        ensures
            (r.0@, r.1@) == aggregate_start(page_url@, use_cache),
    {
        let (resolution, a) = MemberResolution::start(page_url, use_cache);
        let g = Aggregation {
            phase: AggregatePhase::Resolving,
            use_cache,
            resolution,
            members: Vec::new(),
            hits: Vec::new(),
            requested: Vec::new(),
            fresh: Vec::new(),
        };
        proof {
            assert(texts(g.members@) =~= Seq::<Seq<char>>::empty());
            assert(stats(g.hits@) =~= Seq::<Stat>::empty());
            assert(texts(g.requested@) =~= Seq::<Seq<char>>::empty());
            assert(stats(g.fresh@) =~= Seq::<Stat>::empty());
        }
        (g, a)
    }

    pub fn is_finished(&self) -> (r: bool)
        ensures
            r == (self@.phase == AggregatePhase::Finished),
    {
        self.phase == AggregatePhase::Finished
    }

    fn finish(&mut self, a: Action) -> (r: Action)
        ensures
            (final(self)@, r@) == aggregate_finish(old(self)@, a@),
    {
        self.phase = AggregatePhase::Finished;
        a
    }

    fn dispatch(&mut self, hits: Vec<UserInfo>, pending: Vec<String>) -> (r: Action)
        ensures
            (final(self)@, r@) == dispatch(old(self)@, stats(hits@), texts(pending@)),
    {
        if pending.len() == 0 {
            let ranked_hits = rank(&hits);
            self.hits = hits;
            self.finish(Action::Leaderboard(ranked_hits))
        } else {
            self.hits = hits;
            self.requested = copy_texts(&pending);
            self.phase = AggregatePhase::AwaitStats;
            Action::FetchStats(pending)
        }
    }

    fn after_members(&mut self, ms: Vec<String>) -> (r: Action)
        ensures
            (final(self)@, r@) == after_members(old(self)@, texts(ms@)),
    {
        if self.use_cache && ms.len() > 0 {
            let keys = copy_texts(&ms);
            self.members = ms;
            self.phase = AggregatePhase::AwaitTotals;
            Action::ReadKeys(keys)
        } else {
            let pending = copy_texts(&ms);
            self.members = ms;
            let none: Vec<UserInfo> = Vec::new();
            proof {
                assert(stats(none@) =~= Seq::<Stat>::empty());
            }
            self.dispatch(none, pending)
        }
    }

    /// Takes the outcome of the last action and gives the next one.
    pub fn step(&mut self, event: Event) -> (r: Action)
        ensures
            (final(self)@, r@) == aggregate_next(old(self)@, event@),
    {
        match self.phase {
            AggregatePhase::Resolving => {
                let a = self.resolution.step(event);
                match a {
                    Action::Members(ms, _) => self.after_members(ms),
                    Action::Fail(err) => self.finish(Action::Fail(err)),
                    other => other,
                }
            },
            AggregatePhase::AwaitTotals => match event {
                Event::KeysRead(vals) => {
                    if vals.len() != self.members.len() {
                        self.finish(Action::Fail(PipelineError::UnexpectedEvent))
                    } else {
                        match split_cached(&self.members, &vals) {
                            Ok((hits, pending)) => self.dispatch(hits, pending),
                            Err(e) => self.finish(Action::Fail(e)),
                        }
                    }
                },
                Event::StoreFailed => self.finish(Action::Fail(PipelineError::Store)),
                _ => self.finish(Action::Fail(PipelineError::UnexpectedEvent)),
            },
            AggregatePhase::AwaitStats => match event {
                Event::StatsFetched(results, stamp) => {
                    let f = present_stats(&results);
                    if results.len() != self.requested.len() {
                        self.finish(Action::Fail(PipelineError::UnexpectedEvent))
                    } else if f.len() == 0 {
                        let board = rank(&self.hits);
                        self.finish(Action::Leaderboard(board))
                    } else {
                        let writes = make_fresh_writes(&f, &stamp);
                        self.fresh = f;
                        self.phase = AggregatePhase::AwaitWrites;
                        Action::Write(writes)
                    }
                },
                _ => self.finish(Action::Fail(PipelineError::UnexpectedEvent)),
            },
            AggregatePhase::AwaitWrites => match event {
                Event::Written => {
                    let all = join_stats(&self.hits, &self.fresh);
                    let board = rank(&all);
                    self.finish(Action::Leaderboard(board))
                },
                Event::StoreFailed => self.finish(Action::Fail(PipelineError::Store)),
                _ => self.finish(Action::Fail(PipelineError::UnexpectedEvent)),
            },
            AggregatePhase::Finished => Action::Fail(PipelineError::UnexpectedEvent),
        }
    }
}

/// Entry point of the pipeline for one statistics server.
#[derive(Debug)]
pub struct WakapiScraper {
    pub domain: String,
}

impl WakapiScraper {
    pub fn new(domain: String) -> (r: WakapiScraper)
        ensures
            r.domain@ == domain@,
    {
        WakapiScraper { domain }
    }

    /// Begins finding the members: from the store when `try_cache` and the
    /// list is there, else from the leaderboard page.
    pub fn get_leaderboard_users(&self, try_cache: bool) -> (r: (MemberResolution, Action))
        ensures
            (r.0@, r.1@) == resolve_start(leaderboard_url(self.domain@), try_cache),
    {
        MemberResolution::start(leaderboard_endpoint(self.domain.as_str()), try_cache)
    }

    /// Begins building the ranked leaderboard; `try_cache` lets the store
    /// answer for the member list and for each member's total.
    pub fn scrape_leaderboard(&self, try_cache: bool) -> (r: (Aggregation, Action))
        ensures
            (r.0@, r.1@) == aggregate_start(leaderboard_url(self.domain@), try_cache),
    {
        Aggregation::start(leaderboard_endpoint(self.domain.as_str()), try_cache)
    }

    /// Address of a member's monthly statistics.
    pub fn stats_endpoint(&self, username: &str) -> (r: String)
        ensures
            r@ == crate::members::stats_url(self.domain@, username@),
    {
        crate::members::stats_endpoint(self.domain.as_str(), username)
    }
}

/// Whatever the state and the event, a leaderboard that an aggregation
/// answers with has non-increasing totals.
pub proof fn lemma_leaderboard_sorted(s: AggregateState, e: Ev)
    ensures
        aggregate_next(s, e).1 is Leaderboard ==> is_ranked(aggregate_next(s, e).1->Leaderboard_0),
{
    lemma_ranked_sorted(Seq::<Stat>::empty());
    lemma_ranked_sorted(s.hits);
    lemma_ranked_sorted(s.hits + s.fresh);
    if let Ev::KeysRead(vals) = e {
        lemma_ranked_sorted(cached_hits(s.members, vals, vals.len()));
    }
}

/// Once the statistics come back, the members whose fetch failed are left
/// out and nothing fails: the leaderboard holds the cached entries and every
/// fetched entry, each once, ranked.
pub proof fn lemma_failed_fetches_dropped(s: AggregateState, results: Seq<Option<Stat>>, stamp: Seq<char>)
    requires
        s.phase == AggregatePhase::AwaitStats,
        results.len() == s.requested.len(),
    ensures
        ({
            let (s2, a2) = aggregate_next(s, Ev::StatsFetched(results, stamp));
            let f = present(results);
            if f.len() == 0 {
                a2 == Act::Leaderboard(ranked(s.hits))
            } else {
                &&& a2 == Act::Write(fresh_writes(f, stamp))
                &&& aggregate_next(s2, Ev::Written).1 == Act::Leaderboard(ranked(s.hits + f))
                &&& ranked(s.hits + f).to_multiset() == (s.hits + f).to_multiset()
                &&& is_ranked(ranked(s.hits + f))
            }
        }),
{
    let f = present(results);
    lemma_ranked_permutes(s.hits + f);
    lemma_ranked_sorted(s.hits + f);
}

proof fn lemma_misses_from_absent(ms: Seq<Seq<char>>, vals: Seq<Option<Seq<char>>>, n: nat)
    requires
        n <= vals.len(),
        n <= ms.len(),
    ensures
        forall|x: Seq<char>| #[trigger] cache_misses(ms, vals, n).contains(x)
            ==> exists|i: int| 0 <= i < n && ms[i] == x && vals[i] is None,
    decreases n,
{
    if n > 0 {
        lemma_misses_from_absent(ms, vals, (n - 1) as nat);
        let r = cache_misses(ms, vals, (n - 1) as nat);
        assert forall|x: Seq<char>| #[trigger] cache_misses(ms, vals, n).contains(x)
            implies exists|i: int| 0 <= i < n && ms[i] == x && vals[i] is None by {
            if vals[n - 1] is None {
                let t = r.push(ms[n - 1]);
                let k = choose|k: int| 0 <= k < t.len() && #[trigger] t[k] == x;
                if k == r.len() {
                    assert(ms[n - 1] == x && vals[n - 1] is None);
                } else {
                    assert(r[k] == t[k]);
                    assert(r.contains(x));
                }
            } else {
                assert(r.contains(x));
            }
        }
    }
}

proof fn lemma_hits_from_present(ms: Seq<Seq<char>>, vals: Seq<Option<Seq<char>>>, n: nat)
    requires
        n <= vals.len(),
        n <= ms.len(),
        all_readable(vals),
    ensures
        forall|i: int| 0 <= i < n && (#[trigger] vals[i]) is Some
            ==> cached_hits(ms, vals, n).contains((ms[i], total_of(vals[i]->Some_0)->Some_0)),
    decreases n,
{
    if n > 0 {
        lemma_hits_from_present(ms, vals, (n - 1) as nat);
        let r = cached_hits(ms, vals, (n - 1) as nat);
        assert forall|i: int| 0 <= i < n && (#[trigger] vals[i]) is Some
            implies cached_hits(ms, vals, n).contains((ms[i], total_of(vals[i]->Some_0)->Some_0)) by {
            let t = cached_hits(ms, vals, n);
            if i == n - 1 {
                assert(total_of(vals[i]->Some_0) is Some);
                assert(t.last() == (ms[i], total_of(vals[i]->Some_0)->Some_0));
                assert(t[t.len() - 1] == t.last());
            } else {
                let w = (ms[i], total_of(vals[i]->Some_0)->Some_0);
                assert(r.contains(w));
                let k = choose|k: int| 0 <= k < r.len() && #[trigger] r[k] == w;
                if vals[n - 1] is Some {
                    assert(total_of(vals[n - 1]->Some_0) is Some);
                    assert(t[k] == w);
                } else {
                    assert(t[k] == w);
                }
            }
        }
    }
}

/// When the store holds a member's total and the store may be used, that
/// member is not fetched: every member that is fetched had no cached total,
/// and every cached total is taken as it was read.
pub proof fn lemma_cached_totals_short_circuit(s: AggregateState, vals: Seq<Option<Seq<char>>>)
    requires
        s.phase == AggregatePhase::AwaitTotals,
        vals.len() == s.members.len(),
        all_readable(vals),
    ensures
        ({
            let (s2, a) = aggregate_next(s, Ev::KeysRead(vals));
            &&& a is FetchStats || a is Leaderboard
            &&& a is FetchStats ==> forall|x: Seq<char>| #[trigger] a->FetchStats_0.contains(x)
                ==> exists|i: int| 0 <= i < vals.len() && s.members[i] == x && vals[i] is None
            &&& forall|i: int| 0 <= i < vals.len() && (#[trigger] vals[i]) is Some
                ==> s2.hits.contains((s.members[i], total_of(vals[i]->Some_0)->Some_0))
        }),
{
    lemma_misses_from_absent(s.members, vals, vals.len());
    lemma_hits_from_present(s.members, vals, vals.len());
}

/// An entry of a sequence is still there once the sequence is ranked.
pub proof fn lemma_ranked_keeps(x: Seq<Stat>, w: Stat)
    requires
        x.contains(w),
    ensures
        ranked(x).contains(w),
{
    broadcast use vstd::seq_lib::to_multiset_contains;

    lemma_ranked_permutes(x);
    assert(x.to_multiset().count(w) > 0);
    assert(ranked(x).to_multiset().count(w) > 0);
}

/// A whole run that does not use the store for reading, where every store
/// write succeeds: the page is fetched once, the scraped list written, each
/// listed member fetched; members whose fetch failed are left out without
/// any failure, and the leaderboard holds exactly the fetched entries, ranked.
pub proof fn lemma_uncached_run(page_url: Seq<char>, body: Seq<char>, results: Seq<Option<Stat>>, stamp: Seq<char>)
    requires
        page_handles(body).len() > 0,
        results.len() == page_handles(body).len(),
    ensures
        ({
            let hs = page_handles(body);
            let f = present(results);
            let (s1, a1) = aggregate_start(page_url, false);
            let (s2, a2) = aggregate_next(s1, Ev::PageFetched(body));
            let (s3, a3) = aggregate_next(s2, Ev::Written);
            let (s4, a4) = aggregate_next(s3, Ev::StatsFetched(results, stamp));
            &&& a1 == Act::FetchPage(page_url)
            &&& a2 == member_list_write(hs)
            &&& a3 == Act::FetchStats(hs)
            &&& f.len() == 0 ==> a4 == Act::Leaderboard(Seq::<Stat>::empty())
            &&& f.len() > 0 ==> {
                &&& a4 == Act::Write(fresh_writes(f, stamp))
                &&& aggregate_next(s4, Ev::Written).1 == Act::Leaderboard(ranked(f))
                &&& ranked(f).to_multiset() == f.to_multiset()
                &&& is_ranked(ranked(f))
            }
        }),
{
    let f = present(results);
    let (s1, a1) = aggregate_start(page_url, false);
    let (s2, a2) = aggregate_next(s1, Ev::PageFetched(body));
    let (s3, a3) = aggregate_next(s2, Ev::Written);
    assert(s3.hits =~= Seq::<Stat>::empty());
    assert(s3.hits + f =~= f);
    assert(ranked(Seq::<Stat>::empty()) =~= Seq::<Stat>::empty());
    lemma_ranked_permutes(f);
    lemma_ranked_sorted(f);
}

/// A member's cached total, read while the store may be used, reaches the
/// leaderboard as it was read, whatever the fetches of the other members give.
pub proof fn lemma_cached_total_reaches_leaderboard(
    s: AggregateState,
    vals: Seq<Option<Seq<char>>>,
    results: Seq<Option<Stat>>,
    stamp: Seq<char>,
    i: int,
)
    requires
        s.phase == AggregatePhase::AwaitTotals,
        vals.len() == s.members.len(),
        all_readable(vals),
        0 <= i < vals.len(),
        vals[i] is Some,
    ensures
        ({
            let w = (s.members[i], total_of(vals[i]->Some_0)->Some_0);
            let (s2, a2) = aggregate_next(s, Ev::KeysRead(vals));
            let (s3, a3) = aggregate_next(s2, Ev::StatsFetched(results, stamp));
            &&& a2 is Leaderboard ==> a2->Leaderboard_0.contains(w)
            &&& a2 is FetchStats && results.len() == a2->FetchStats_0.len() ==> {
                &&& a3 is Leaderboard || a3 is Write
                &&& a3 is Leaderboard ==> a3->Leaderboard_0.contains(w)
                &&& a3 is Write ==> aggregate_next(s3, Ev::Written).1 is Leaderboard
                    && aggregate_next(s3, Ev::Written).1->Leaderboard_0.contains(w)
            }
        }),
{
    let w = (s.members[i], total_of(vals[i]->Some_0)->Some_0);
    lemma_hits_from_present(s.members, vals, vals.len());
    let h = cached_hits(s.members, vals, vals.len());
    assert(h.contains(w));
    lemma_ranked_keeps(h, w);
    let f = present(results);
    let k = choose|k: int| 0 <= k < h.len() && #[trigger] h[k] == w;
    assert((h + f)[k] == w);
    lemma_ranked_keeps(h + f, w);
}

} // verus!
