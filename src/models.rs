//! The per-member statistic that the leaderboard is made of.

use vstd::prelude::*;

verus! {

/// One member's coding time for the current period.
#[derive(Debug, Clone, PartialEq, Eq)]
pub struct UserInfo {
    pub username: String,
    pub total_seconds: u64,
}

/// A statistic as a username and a number of seconds.
pub type Stat = (Seq<char>, u64);

impl View for UserInfo {
    type V = Stat;

    open spec fn view(&self) -> Stat {
        (self.username@, self.total_seconds)
    }
}

/// The contents of a sequence of statistics.
pub open spec fn stats(v: Seq<UserInfo>) -> Seq<Stat> {
    v.map_values(|u: UserInfo| u@)
}

impl UserInfo {
    pub fn new(username: String, total_seconds: u64) -> (r: UserInfo)
        ensures
            r@ == (username@, total_seconds),
    {
        UserInfo { username, total_seconds }
    }

    /// A second statistic with the same contents.
    pub fn duplicate(&self) -> (r: UserInfo)
        ensures
            r@ == self@,
    {
        UserInfo { username: self.username.clone(), total_seconds: self.total_seconds }
    }
}

} // verus!
