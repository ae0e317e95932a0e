//! What the chat commands decide, apart from talking to the chat platform.

use vstd::prelude::*;
use crate::codec::{MEMBER_SEPARATOR, join_with, texts};
use crate::config::{REDIS_LAST_UPDATE_KEY, REDIS_LEADERBOARD_MEMBERS_KEY};
use crate::members::{page_handles, resolve_next, resolve_start};
use crate::protocol::{Act, Ev, copy_texts};

verus! {

/// The keys that clearing removes: every member's total, the time of the
/// last update, and the member list itself.
pub open spec fn clear_keys_of(ms: Seq<Seq<char>>) -> Seq<Seq<char>> {
    ms + seq![REDIS_LAST_UPDATE_KEY@, REDIS_LEADERBOARD_MEMBERS_KEY@]
}

/// The keys to delete to clear the cache, given the current members.
pub fn keys_to_clear(members: &Vec<String>) -> (r: Vec<String>)
    ensures
        texts(r@) == clear_keys_of(texts(members@)),
{
    let mut keys = copy_texts(members);
    let ghost k0 = keys@;
    keys.push(String::from_str(REDIS_LAST_UPDATE_KEY));
    keys.push(String::from_str(REDIS_LEADERBOARD_MEMBERS_KEY));
    proof {
        assert(texts(keys@) =~= texts(k0).push(REDIS_LAST_UPDATE_KEY@).push(REDIS_LEADERBOARD_MEMBERS_KEY@));
        assert(clear_keys_of(texts(members@)) =~= texts(members@).push(REDIS_LAST_UPDATE_KEY@).push(REDIS_LEADERBOARD_MEMBERS_KEY@));
    }
    keys
}

/// What a store holding `m` answers for `k`.
pub open spec fn lookup(m: Map<Seq<char>, Seq<char>>, k: Seq<char>) -> Option<Seq<char>> {
    if m.contains_key(k) {
        Some(m[k])
    } else {
        None
    }
}

/// A store holding `m` after each of `keys` was deleted.
pub open spec fn delete_all(m: Map<Seq<char>, Seq<char>>, keys: Seq<Seq<char>>) -> Map<Seq<char>, Seq<char>> {
    m.remove_keys(keys.to_set())
}

/// After clearing, the store holds neither the member list, nor the time of
/// the last update, nor any member's total; so the next resolution that may
/// use the store behaves as on a cold store: it fetches the page once, and
/// when the page lists usernames it writes them, joined, with a six-hour
/// lifetime, and answers with all of them in page order.
pub proof fn lemma_clear_leaves_cold_store(
    m: Map<Seq<char>, Seq<char>>,
    members: Seq<Seq<char>>,
    page_url: Seq<char>,
    body: Seq<char>,
)
    ensures
        ({
            let m2 = delete_all(m, clear_keys_of(members));
            let (s1, a1) = resolve_start(page_url, true);
            let (s2, a2) = resolve_next(s1, Ev::KeysRead(seq![lookup(m2, REDIS_LEADERBOARD_MEMBERS_KEY@)]));
            let (s3, a3) = resolve_next(s2, Ev::PageFetched(body));
            let hs = page_handles(body);
            &&& !m2.contains_key(REDIS_LEADERBOARD_MEMBERS_KEY@)
            &&& !m2.contains_key(REDIS_LAST_UPDATE_KEY@)
            &&& forall|i: int| 0 <= i < members.len() ==> !m2.contains_key(#[trigger] members[i])
            &&& a2 == Act::FetchPage(page_url)
            &&& hs.len() == 0 ==> a3 == Act::Members(hs, false)
            &&& hs.len() > 0 ==> {
                &&& a3 == Act::Write(seq![(REDIS_LEADERBOARD_MEMBERS_KEY@, join_with(hs, MEMBER_SEPARATOR), Some((6 * 60 * 60) as u64))])
                &&& resolve_next(s3, Ev::Written).1 == Act::Members(hs, false)
            }
        }),
{
    let ks = clear_keys_of(members);
    assert(ks[members.len() as int] == REDIS_LAST_UPDATE_KEY@);
    assert(ks[members.len() as int + 1] == REDIS_LEADERBOARD_MEMBERS_KEY@);
    assert(ks.to_set().contains(REDIS_LEADERBOARD_MEMBERS_KEY@));
    assert(ks.to_set().contains(REDIS_LAST_UPDATE_KEY@));
    assert forall|i: int| 0 <= i < members.len() implies ks.to_set().contains(#[trigger] members[i]) by {
        assert(ks[i] == members[i]);
    }
}

} // verus!
