//! Advised actions for watched identifiers, stored once per breach,
//! identifier and text.
use vstd::prelude::*;
use crate::action_log::{
    insert_outcome, pending_order, settle_outcome, count_status, ActionLogError, ActionStatus,
};
use crate::common::{severity_label, Severity};
use super::LeakDb;

verus! {

/// Stores a pending action for `identifier`'s breach `breach_name` unless the
/// same action is stored already; returns the id of the stored action.
pub fn insert_action(
    db: &mut LeakDb,
    breach_name: &str,
    identifier: &str,
    action: &str,
    severity: &Severity,
) -> (r: Result<i64, ActionLogError>)
    ensures
        final(db).watchlist@ == old(db).watchlist@,
        final(db).watchlist.last_id() == old(db).watchlist.last_id(),
        final(db).seen_breaches@ == old(db).seen_breaches@,
        final(db).actions@ == insert_outcome(old(db).actions@, breach_name@, identifier@, action@, severity_label(*severity)).0,
        match r {
            Ok(id) => insert_outcome(old(db).actions@, breach_name@, identifier@, action@, severity_label(*severity)).1
                == Ok::<int, ActionLogError>(id as int),
            Err(e) => insert_outcome(old(db).actions@, breach_name@, identifier@, action@, severity_label(*severity)).1
                == Err::<int, ActionLogError>(e),
        },
{
    db.actions.insert(breach_name, identifier, action, severity)
}

/// Marks the pending action `id` done; returns whether there was one.
pub fn mark_done(db: &mut LeakDb, id: i64) -> (changed: bool)
    ensures
        final(db).watchlist@ == old(db).watchlist@,
        final(db).watchlist.last_id() == old(db).watchlist.last_id(),
        final(db).seen_breaches@ == old(db).seen_breaches@,
        (final(db).actions@, changed) == settle_outcome(old(db).actions@, id as int, ActionStatus::Done),
{
    db.actions.settle(id, ActionStatus::Done)
}

/// Marks the pending action `id` skipped; returns whether there was one.
pub fn mark_skipped(db: &mut LeakDb, id: i64) -> (changed: bool)
    ensures
        final(db).watchlist@ == old(db).watchlist@,
        final(db).watchlist.last_id() == old(db).watchlist.last_id(),
        final(db).seen_breaches@ == old(db).seen_breaches@,
        (final(db).actions@, changed) == settle_outcome(old(db).actions@, id as int, ActionStatus::Skipped),
{
    db.actions.settle(id, ActionStatus::Skipped)
}

/// The pending actions as (id, breach, identifier, action, severity), most
/// urgent first and by id within a severity.
pub fn get_pending_actions(db: &LeakDb) -> (r: Vec<(i64, String, String, String, String)>)
    ensures
        r@.len() == pending_order(db.actions@).len(),
        forall|i: int| 0 <= i < r@.len() ==> {
            let e = #[trigger] pending_order(db.actions@)[i];
            &&& r@[i].0 as int == e.id
            &&& r@[i].1@ == e.breach_name
            &&& r@[i].2@ == e.identifier
            &&& r@[i].3@ == e.action
            &&& r@[i].4@ == e.severity
        },
{
    let rows = db.actions.pending();
    let mut r: Vec<(i64, String, String, String, String)> = Vec::new();
    let mut i: usize = 0;
    while i < rows.len()
        invariant
            i <= rows@.len(),
            crate::action_log::entries_view(rows@) == pending_order(db.actions@),
            r@.len() == i,
            forall|k: int| 0 <= k < i ==> {
                let e = #[trigger] pending_order(db.actions@)[k];
                &&& r@[k].0 as int == e.id
                &&& r@[k].1@ == e.breach_name
                &&& r@[k].2@ == e.identifier
                &&& r@[k].3@ == e.action
                &&& r@[k].4@ == e.severity
            },
        decreases rows.len() - i,
    {
        let row = &rows[i];
        assert(pending_order(db.actions@)[i as int] == row@);
        r.push((row.id, row.breach_name.clone(), row.identifier.clone(), row.action.clone(), row.severity.clone()));
        i += 1;
    }
    r
}

/// The numbers of actions in all, pending, done and skipped.
pub fn get_stats(db: &LeakDb) -> (r: (usize, usize, usize, usize))
    ensures
        r.0 == db.actions@.len(),
        r.1 == count_status(db.actions@, ActionStatus::Pending),
        r.2 == count_status(db.actions@, ActionStatus::Done),
        r.3 == count_status(db.actions@, ActionStatus::Skipped),
{
    db.actions.stats()
}

} // verus!
