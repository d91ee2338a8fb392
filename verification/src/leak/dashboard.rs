//! What the monitoring dashboard shows: each watched identifier with the
//! number of breaches reported for it, the open alerts, and the progress of
//! the advised actions.
use vstd::prelude::*;
use crate::action_log::{count_status, ActionStatus};
use super::monitor::ScanResult;
use super::watchlist::seen_count;
use super::LeakDb;

verus! {

/// One line of the dashboard's watchlist.
#[derive(Debug)]
pub struct WatchSummary {
    pub identifier: String,
    pub added_at: String,
    pub breaches: usize,
}

/// Each watched identifier, in watchlist order, with when it was added and
/// how many breaches were reported for it.
pub fn watch_summaries(db: &LeakDb) -> (r: Vec<WatchSummary>)
    ensures
        r@.len() == db.watchlist@.len(),
        forall|i: int| 0 <= i < r@.len() ==> {
            &&& (#[trigger] r@[i]).identifier@ == db.watchlist@[i].identifier
            &&& r@[i].added_at@ == db.watchlist@[i].added_at
            &&& r@[i].breaches == seen_count(db.seen_breaches@, db.watchlist@[i].identifier)
        },
{
    let list = crate::leak::watchlist::get_watchlist(db);
    let mut r: Vec<WatchSummary> = Vec::new();
    let mut i: usize = 0;
    while i < list.len()
        invariant
            i <= list@.len(),
            list@.len() == db.watchlist@.len(),
            forall|k: int| 0 <= k < list@.len() ==> (#[trigger] list@[k]).1@ == db.watchlist@[k].identifier
                && list@[k].2@ == db.watchlist@[k].added_at,
            r@.len() == i,
            forall|k: int| 0 <= k < i ==> {
                &&& (#[trigger] r@[k]).identifier@ == db.watchlist@[k].identifier
                &&& r@[k].added_at@ == db.watchlist@[k].added_at
                &&& r@[k].breaches == seen_count(db.seen_breaches@, db.watchlist@[k].identifier)
            },
        decreases list.len() - i,
    {
        let (_, identifier, added_at) = &list[i];
        let breaches = crate::leak::watchlist::breach_count(db, identifier.as_str());
        r.push(WatchSummary { identifier: identifier.clone(), added_at: added_at.clone(), breaches });
        i += 1;
    }
    r
}

/// The number of alerts needing attention: the advised actions still pending.
pub fn count_new_alerts(db: &LeakDb) -> (r: usize)
    ensures
        r == count_status(db.actions@, ActionStatus::Pending),
{
    crate::leak::actions::get_stats(db).1
}

/// The number of breaches over all scan results that were not reported before.
pub open spec fn new_breach_total(rs: Seq<ScanResult>) -> nat
    decreases rs.len(),
{
    if rs.len() == 0 {
        0
    } else {
        new_breach_total(rs.drop_last()) + rs.last().new_breaches@.len()
    }
}

/// The number of new breaches a scan of the watchlist found in all.
pub fn total_new_breaches(results: &Vec<ScanResult>) -> (r: usize)
    requires
        new_breach_total(results@) <= usize::MAX,
    ensures
        r == new_breach_total(results@),
{
    let mut total: usize = 0;
    let mut i: usize = 0;
    while i < results.len()
        invariant
            i <= results@.len(),
            new_breach_total(results@) <= usize::MAX,
            total == new_breach_total(results@.take(i as int)),
        decreases results.len() - i,
    {
        assert(results@.take(i + 1).drop_last() =~= results@.take(i as int));
        proof {
            lemma_new_breach_total_prefix(results@, i as int + 1);
        }
        total += results[i].new_breaches.len();
        i += 1;
    }
    assert(results@.take(results@.len() as int) =~= results@);
    total
}

/// A prefix of the results has no more new breaches than all of them.
proof fn lemma_new_breach_total_prefix(rs: Seq<ScanResult>, k: int)
    requires
        0 <= k <= rs.len(),
    ensures
        new_breach_total(rs.take(k)) <= new_breach_total(rs),
    decreases rs.len() - k,
{
    if k < rs.len() {
        assert(rs.take(k + 1).drop_last() =~= rs.take(k));
        lemma_new_breach_total_prefix(rs, k + 1);
    } else {
        assert(rs.take(k) =~= rs);
    }
}

} // verus!
