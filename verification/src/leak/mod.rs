pub mod actions;
pub mod dashboard;
pub mod monitor;
pub mod watchlist;

use vstd::prelude::*;
use crate::action_log::ActionLog;
use self::watchlist::{SeenBreaches, Watchlist, WatchView};

verus! {

/// The leak-monitoring database: the watchlist, the breaches already reported
/// for each identifier, and the advised actions.
pub struct LeakDb {
    pub watchlist: Watchlist,
    pub seen_breaches: SeenBreaches,
    pub actions: ActionLog,
}

impl LeakDb {
    /// An empty database.
    pub fn new() -> (r: LeakDb)
        ensures
            r.watchlist@ == Seq::<WatchView>::empty(),
            r.watchlist.last_id() == 0,
            r.seen_breaches@ == Seq::<(Seq<char>, Seq<char>)>::empty(),
            r.actions@ == Seq::<crate::action_log::ActionEntry>::empty(),
    {
        LeakDb { watchlist: Watchlist::new(), seen_breaches: SeenBreaches::new(), actions: ActionLog::new() }
    }
}

} // verus!
