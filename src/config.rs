//! Well-known keys and lifetimes of the entries kept in the key-value store.

use vstd::prelude::*;

verus! {

/// Key of the cached member list.
pub const REDIS_LEADERBOARD_MEMBERS_KEY: &'static str = "members";

/// Key of the persisted winner of the last period.
pub const REDIS_WINNER_KEY: &'static str = "winner";

/// Key of the time of the most recent fresh statistic.
pub const REDIS_LAST_UPDATE_KEY: &'static str = "last_update";

/// Lifetime of the cached member list: six hours.
pub const MEMBER_LIST_TTL_SECONDS: u64 = 21600;

/// Lifetime of a cached per-member total: fifteen minutes.
pub const MEMBER_TOTAL_TTL_SECONDS: u64 = 900;

/// Markup of one user handle on the leaderboard page; the handle is the first group.
pub const HANDLE_PATTERN: &'static str = "<strong class=\"text-ellipsis truncate\">@(\\w+)</strong>";

} // verus!
