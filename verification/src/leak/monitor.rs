//! Scanning watched identifiers for breaches not reported before, and advising
//! actions for each new one.
use vstd::prelude::*;
use crate::action_log::{ActionEntry, ActionLogError};
use crate::phantom::actions::{
    breach_actions, insert_actions, lemma_action_rule_short, lemma_stored_log_of_success, store_breach_actions, stored_log,
};
use crate::phantom::breach_db::{breaches_for_domain, breaches_view, email_domain, find_breaches_for_email, BreachInfo, BreachView};
use crate::text::lowercase;
use super::LeakDb;

verus! {

/// Result of scanning a single identifier.
#[derive(Debug)]
pub struct ScanResult {
    pub identifier: String,
    pub new_breaches: Vec<BreachInfo>,
    pub known_breaches: usize,
    pub actions_generated: usize,
}

/// Where a scan of one identifier stands.
pub struct ScanState {
    pub new_breaches: Seq<BreachView>,
    pub known: nat,
    pub actions: nat,
    pub seen: Seq<(Seq<char>, Seq<char>)>,
    pub log: Seq<ActionEntry>,
}

/// Scanning `identifier` against breaches `bs`, in order: a breach already
/// seen for it is counted as known; any other is recorded as seen, reported as
/// new, and its advised actions stored. `None` when the ids run out.
pub open spec fn scan_fold(
    seen: Seq<(Seq<char>, Seq<char>)>,
    log: Seq<ActionEntry>,
    identifier: Seq<char>,
    bs: Seq<BreachView>,
) -> Option<ScanState>
    decreases bs.len(),
{
    if bs.len() == 0 {
        Some(ScanState { new_breaches: seq![], known: 0, actions: 0, seen, log })
    } else {
        match scan_fold(seen, log, identifier, bs.drop_last()) {
            None => None,
            Some(st) => {
                let b = bs.last();
                if st.seen.contains((identifier, b.name)) {
                    Some(ScanState { known: st.known + 1, ..st })
                } else {
                    match insert_actions(st.log, b.name, identifier, breach_actions(b)) {
                        None => None,
                        Some(l2) => Some(
                            ScanState {
                                new_breaches: st.new_breaches.push(b),
                                known: st.known,
                                actions: st.actions + breach_actions(b).len(),
                                seen: st.seen.push((identifier, b.name)),
                                log: l2,
                            },
                        ),
                    }
                }
            },
        }
    }
}

/// The seen pairs and the action log after scanning `identifier` against
/// breaches `bs` in order, up to the first action that could not be stored
/// (to the end when none fails).
pub open spec fn scan_end(
    seen: Seq<(Seq<char>, Seq<char>)>,
    log: Seq<ActionEntry>,
    identifier: Seq<char>,
    bs: Seq<BreachView>,
) -> (Seq<(Seq<char>, Seq<char>)>, Seq<ActionEntry>)
    decreases bs.len(),
{
    if bs.len() == 0 {
        (seen, log)
    } else {
        match scan_fold(seen, log, identifier, bs.drop_last()) {
            Some(st) => {
                let b = bs.last();
                if st.seen.contains((identifier, b.name)) {
                    (st.seen, st.log)
                } else {
                    (st.seen.push((identifier, b.name)), stored_log(st.log, b.name, identifier, breach_actions(b)))
                }
            },
            None => scan_end(seen, log, identifier, bs.drop_last()),
        }
    }
}

/// When a scan succeeds throughout, it ends in the state it reports.
proof fn lemma_scan_end_of_success(
    seen: Seq<(Seq<char>, Seq<char>)>,
    log: Seq<ActionEntry>,
    identifier: Seq<char>,
    bs: Seq<BreachView>,
)
    requires
        scan_fold(seen, log, identifier, bs) is Some,
    ensures
        scan_end(seen, log, identifier, bs) == (
            scan_fold(seen, log, identifier, bs)->Some_0.seen,
            scan_fold(seen, log, identifier, bs)->Some_0.log,
        ),
{
    if bs.len() > 0 {
        let st = scan_fold(seen, log, identifier, bs.drop_last())->Some_0;
        let b = bs.last();
        if !st.seen.contains((identifier, b.name)) {
            lemma_stored_log_of_success(st.log, b.name, identifier, breach_actions(b));
        }
    }
}

/// Scans `identifier` for breaches not reported for it before: each such
/// breach is recorded as seen, reported as new, and its advised actions are
/// stored; breaches seen before are only counted.
pub fn scan_identifier(db: &mut LeakDb, identifier: &str) -> (r: Result<ScanResult, ActionLogError>)
    ensures
        final(db).watchlist@ == old(db).watchlist@,
        final(db).watchlist.last_id() == old(db).watchlist.last_id(),
        (final(db).seen_breaches@, final(db).actions@) == scan_end(
            old(db).seen_breaches@,
            old(db).actions@,
            identifier@,
            breaches_for_domain(email_domain(identifier@)),
        ),
        match r {
            Ok(res) => res.identifier@ == identifier@ && scan_fold(
                old(db).seen_breaches@,
                old(db).actions@,
                identifier@,
                breaches_for_domain(email_domain(identifier@)),
            ) == Some(
                ScanState {
                    new_breaches: breaches_view(res.new_breaches@),
                    known: res.known_breaches as nat,
                    actions: res.actions_generated as nat,
                    seen: final(db).seen_breaches@,
                    log: final(db).actions@,
                },
            ),
            Err(_) => scan_fold(
                old(db).seen_breaches@,
                old(db).actions@,
                identifier@,
                breaches_for_domain(email_domain(identifier@)),
            ) is None,
        },
{
    let breaches = find_breaches_for_email(identifier);
    let ghost bs = breaches_view(breaches@);
    let ghost seen0 = db.seen_breaches@;
    let ghost log0 = db.actions@;
    let mut new_breaches: Vec<BreachInfo> = Vec::new();
    let mut known_count: usize = 0;
    let mut action_count: usize = 0;
    let mut i: usize = 0;
    assert(bs.take(0) =~= Seq::<BreachView>::empty());
    assert(breaches_view(new_breaches@) =~= Seq::<BreachView>::empty());
    while i < breaches.len()
        invariant
            i <= breaches@.len(),
            bs == breaches_view(breaches@),
            bs == breaches_for_domain(email_domain(identifier@)),
            bs.len() <= 24,
            known_count <= i,
            action_count <= 8 * i,
            seen0 == old(db).seen_breaches@,
            log0 == old(db).actions@,
            db.watchlist@ == old(db).watchlist@,
            db.watchlist.last_id() == old(db).watchlist.last_id(),
            scan_fold(seen0, log0, identifier@, bs.take(i as int)) == Some(
                ScanState {
                    new_breaches: breaches_view(new_breaches@),
                    known: known_count as nat,
                    actions: action_count as nat,
                    seen: db.seen_breaches@,
                    log: db.actions@,
                },
            ),
        decreases breaches.len() - i,
    {
        let b = &breaches[i];
        assert(bs[i as int] == b@);
        assert(bs.take(i + 1).drop_last() =~= bs.take(i as int));
        assert(bs.take(i + 1).last() == b@);
        if crate::leak::watchlist::is_known_breach(db, identifier, b.name) {
            known_count += 1;
        } else {
            let ghost pre_log = db.actions@;
            let ghost pre_seen = db.seen_breaches@;
            crate::leak::watchlist::record_breach_seen(db, identifier, b.name);
            let ghost nb = new_breaches@;
            new_breaches.push(b.clone());
            assert(breaches_view(new_breaches@) =~= breaches_view(nb).push(b@));
            proof {
                lemma_action_rule_short(b@.name, b@.data_types.map_values(|t: Seq<char>| lowercase(t)));
            }
            match store_breach_actions(&mut db.actions, b, identifier) {
                Ok(n) => {
                    action_count += n;
                },
                Err(e) => {
                    proof {
                        assert(insert_actions(pre_log, b@.name, identifier@, breach_actions(b@)) is None);
                        assert(!pre_seen.contains((identifier@, b@.name)));
                        assert(scan_fold(seen0, log0, identifier@, bs.take(i + 1)) is None);
                        assert(scan_end(seen0, log0, identifier@, bs.take(i + 1)) == (db.seen_breaches@, db.actions@));
                        lemma_scan_fold_stops(seen0, log0, identifier@, bs, i as int + 1);
                    }
                    return Err(e);
                },
            }
        }
        i += 1;
    }
    assert(bs.take(breaches@.len() as int) =~= bs);
    proof {
        lemma_scan_end_of_success(seen0, log0, identifier@, bs);
    }
    Ok(ScanResult {
        identifier: String::from_str(identifier),
        new_breaches,
        known_breaches: known_count,
        actions_generated: action_count,
    })
}

/// Once a scan fails, scanning more breaches fails too.
proof fn lemma_scan_fold_stops(
    seen: Seq<(Seq<char>, Seq<char>)>,
    log: Seq<ActionEntry>,
    identifier: Seq<char>,
    bs: Seq<BreachView>,
    j: int,
)
    requires
        0 <= j <= bs.len(),
        scan_fold(seen, log, identifier, bs.take(j)) is None,
    ensures
        scan_fold(seen, log, identifier, bs) is None,
        scan_end(seen, log, identifier, bs) == scan_end(seen, log, identifier, bs.take(j)),
    decreases bs.len() - j,
{
    if j < bs.len() {
        assert(bs.take(j + 1).drop_last() =~= bs.take(j));
        lemma_scan_fold_stops(seen, log, identifier, bs, j + 1);
    } else {
        assert(bs.take(j) =~= bs);
    }
}

/// Scanning watched identifiers `ids` in order, each scan starting from what
/// the previous one left; `None` when the ids of the action log run out.
pub open spec fn scan_all_fold(
    seen: Seq<(Seq<char>, Seq<char>)>,
    log: Seq<ActionEntry>,
    ids: Seq<Seq<char>>,
) -> Option<Seq<ScanState>>
    decreases ids.len(),
{
    if ids.len() == 0 {
        Some(seq![])
    } else {
        match scan_all_fold(seen, log, ids.drop_last()) {
            None => None,
            Some(sts) => {
                let s1 = if sts.len() == 0 { seen } else { sts.last().seen };
                let l1 = if sts.len() == 0 { log } else { sts.last().log };
                match scan_fold(s1, l1, ids.last(), breaches_for_domain(email_domain(ids.last()))) {
                    None => None,
                    Some(st) => Some(sts.push(st)),
                }
            },
        }
    }
}

/// The seen pairs and the action log after scanning identifiers `ids` in
/// order, up to the first action that could not be stored (to the end when
/// none fails).
pub open spec fn scan_all_end(
    seen: Seq<(Seq<char>, Seq<char>)>,
    log: Seq<ActionEntry>,
    ids: Seq<Seq<char>>,
) -> (Seq<(Seq<char>, Seq<char>)>, Seq<ActionEntry>)
    decreases ids.len(),
{
    if ids.len() == 0 {
        (seen, log)
    } else {
        match scan_all_fold(seen, log, ids.drop_last()) {
            Some(sts) => {
                let s1 = if sts.len() == 0 { seen } else { sts.last().seen };
                let l1 = if sts.len() == 0 { log } else { sts.last().log };
                scan_end(s1, l1, ids.last(), breaches_for_domain(email_domain(ids.last())))
            },
            None => scan_all_end(seen, log, ids.drop_last()),
        }
    }
}

/// The identifiers of a watchlist, in its order.
pub open spec fn watched_identifiers(ws: Seq<crate::leak::watchlist::WatchView>) -> Seq<Seq<char>> {
    ws.map_values(|w: crate::leak::watchlist::WatchView| w.identifier)
}

/// The result reports the state of one scan.
pub open spec fn reports(res: ScanResult, st: ScanState, identifier: Seq<char>) -> bool {
    &&& res.identifier@ == identifier
    &&& breaches_view(res.new_breaches@) == st.new_breaches
    &&& res.known_breaches as nat == st.known
    &&& res.actions_generated as nat == st.actions
}

/// Scans every watched identifier, in watchlist order.
pub fn scan_all(db: &mut LeakDb) -> (r: Result<Vec<ScanResult>, ActionLogError>)
    ensures
        final(db).watchlist@ == old(db).watchlist@,
        final(db).watchlist.last_id() == old(db).watchlist.last_id(),
        match r {
            Ok(results) => {
                let ids = watched_identifiers(old(db).watchlist@);
                let outcome = scan_all_fold(old(db).seen_breaches@, old(db).actions@, ids);
                let sts = outcome->Some_0;
                &&& outcome is Some
                &&& results@.len() == sts.len()
                &&& forall|i: int| 0 <= i < sts.len() ==> reports(#[trigger] results@[i], sts[i], ids[i])
                &&& final(db).seen_breaches@ == (if sts.len() == 0 { old(db).seen_breaches@ } else { sts.last().seen })
                &&& final(db).actions@ == (if sts.len() == 0 { old(db).actions@ } else { sts.last().log })
            },
            Err(_) => scan_all_fold(old(db).seen_breaches@, old(db).actions@, watched_identifiers(old(db).watchlist@)) is None
                && (final(db).seen_breaches@, final(db).actions@) == scan_all_end(
                old(db).seen_breaches@,
                old(db).actions@,
                watched_identifiers(old(db).watchlist@),
            ),
        },
{
    let watchlist = crate::leak::watchlist::get_watchlist(db);
    let ghost ids = watched_identifiers(db.watchlist@);
    let ghost seen0 = db.seen_breaches@;
    let ghost log0 = db.actions@;
    let ghost mut sts: Seq<ScanState> = seq![];
    let mut results: Vec<ScanResult> = Vec::new();
    let mut i: usize = 0;
    assert(ids.take(0) =~= Seq::<Seq<char>>::empty());
    while i < watchlist.len()
        invariant
            i <= watchlist@.len(),
            watchlist@.len() == ids.len(),
            forall|k: int| 0 <= k < ids.len() ==> (#[trigger] watchlist@[k]).1@ == ids[k],
            ids == watched_identifiers(old(db).watchlist@),
            seen0 == old(db).seen_breaches@,
            log0 == old(db).actions@,
            db.watchlist@ == old(db).watchlist@,
            db.watchlist.last_id() == old(db).watchlist.last_id(),
            scan_all_fold(seen0, log0, ids.take(i as int)) == Some(sts),
            results@.len() == sts.len(),
            sts.len() == i,
            forall|k: int| 0 <= k < i ==> reports(#[trigger] results@[k], sts[k], ids[k]),
            db.seen_breaches@ == (if i == 0 { seen0 } else { sts.last().seen }),
            db.actions@ == (if i == 0 { log0 } else { sts.last().log }),
        decreases watchlist.len() - i,
    {
        let identifier = &watchlist[i].1;
        assert(ids.take(i + 1).drop_last() =~= ids.take(i as int));
        assert(ids.take(i + 1).last() == ids[i as int]);
        match scan_identifier(db, identifier.as_str()) {
            Ok(res) => {
                proof {
                    let st = ScanState {
                        new_breaches: breaches_view(res.new_breaches@),
                        known: res.known_breaches as nat,
                        actions: res.actions_generated as nat,
                        seen: db.seen_breaches@,
                        log: db.actions@,
                    };
                    sts = sts.push(st);
                }
                results.push(res);
            },
            Err(e) => {
                proof {
                    assert(scan_all_end(seen0, log0, ids.take(i + 1)) == (db.seen_breaches@, db.actions@));
                    lemma_scan_all_stops(seen0, log0, ids, i as int + 1);
                }
                return Err(e);
            },
        }
        i += 1;
    }
    assert(ids.take(ids.len() as int) =~= ids);
    assert(scan_all_fold(old(db).seen_breaches@, old(db).actions@, watched_identifiers(old(db).watchlist@)) == Some(sts));
    assert(forall|k: int| 0 <= k < sts.len() ==> reports(#[trigger] results@[k], sts[k], watched_identifiers(old(db).watchlist@)[k]));
    Ok(results)
}

/// Once scanning the watchlist fails, scanning more identifiers fails too.
proof fn lemma_scan_all_stops(
    seen: Seq<(Seq<char>, Seq<char>)>,
    log: Seq<ActionEntry>,
    ids: Seq<Seq<char>>,
    j: int,
)
    requires
        0 <= j <= ids.len(),
        scan_all_fold(seen, log, ids.take(j)) is None,
    ensures
        scan_all_fold(seen, log, ids) is None,
        scan_all_end(seen, log, ids) == scan_all_end(seen, log, ids.take(j)),
    decreases ids.len() - j,
{
    if j < ids.len() {
        assert(ids.take(j + 1).drop_last() =~= ids.take(j));
        lemma_scan_all_stops(seen, log, ids, j + 1);
    } else {
        assert(ids.take(j) =~= ids);
    }
}

/// A scan records every breach it looks at as seen, and forgets nothing.
pub proof fn lemma_scan_marks_seen(
    seen: Seq<(Seq<char>, Seq<char>)>,
    log: Seq<ActionEntry>,
    identifier: Seq<char>,
    bs: Seq<BreachView>,
)
    requires
        scan_fold(seen, log, identifier, bs) is Some,
    ensures
        forall|j: int| 0 <= j < bs.len() ==> scan_fold(seen, log, identifier, bs)->Some_0.seen.contains(
            (identifier, #[trigger] bs[j].name),
        ),
        forall|p: (Seq<char>, Seq<char>)| seen.contains(p) ==> #[trigger] scan_fold(seen, log, identifier, bs)->Some_0.seen.contains(p),
    decreases bs.len(),
{
    if bs.len() > 0 {
        let rest = bs.drop_last();
        lemma_scan_marks_seen(seen, log, identifier, rest);
        let st = scan_fold(seen, log, identifier, rest)->Some_0;
        let fin = scan_fold(seen, log, identifier, bs)->Some_0;
        assert forall|p: (Seq<char>, Seq<char>)| st.seen.contains(p) implies fin.seen.contains(p) by {
            if !st.seen.contains((identifier, bs.last().name)) {
                let k = choose|k: int| 0 <= k < st.seen.len() && st.seen[k] == p;
                assert(fin.seen[k] == p);
            }
        }
        assert forall|j: int| 0 <= j < bs.len() implies fin.seen.contains((identifier, #[trigger] bs[j].name)) by {
            if j < bs.len() - 1 {
                assert(rest[j] == bs[j]);
                assert(st.seen.contains((identifier, rest[j].name)));
            } else if !st.seen.contains((identifier, bs.last().name)) {
                assert(fin.seen[st.seen.len() as int] == (identifier, bs.last().name));
            }
        }
    }
}

/// When every breach was seen before, a scan reports nothing new and changes nothing.
pub proof fn lemma_scan_of_known(
    seen: Seq<(Seq<char>, Seq<char>)>,
    log: Seq<ActionEntry>,
    identifier: Seq<char>,
    bs: Seq<BreachView>,
)
    requires
        forall|j: int| 0 <= j < bs.len() ==> seen.contains((identifier, #[trigger] bs[j].name)),
    ensures
        scan_fold(seen, log, identifier, bs) == Some(
            ScanState { new_breaches: seq![], known: bs.len(), actions: 0, seen, log },
        ),
    decreases bs.len(),
{
    if bs.len() > 0 {
        let rest = bs.drop_last();
        assert forall|j: int| 0 <= j < rest.len() implies seen.contains((identifier, #[trigger] rest[j].name)) by {
            assert(rest[j] == bs[j]);
        }
        lemma_scan_of_known(seen, log, identifier, rest);
        assert(seen.contains((identifier, bs[bs.len() - 1].name)));
    }
}

/// Scanning an identifier a second time, right after a scan, finds no new
/// breach, counts every breach as known, and stores no action.
pub proof fn lemma_rescan_finds_nothing_new(
    seen: Seq<(Seq<char>, Seq<char>)>,
    log: Seq<ActionEntry>,
    identifier: Seq<char>,
)
    requires
        scan_fold(seen, log, identifier, breaches_for_domain(email_domain(identifier))) is Some,
    ensures
        ({
            let bs = breaches_for_domain(email_domain(identifier));
            let st = scan_fold(seen, log, identifier, bs)->Some_0;
            scan_fold(st.seen, st.log, identifier, bs) == Some(
                ScanState { new_breaches: seq![], known: bs.len(), actions: 0, seen: st.seen, log: st.log },
            )
        }),
{
    let bs = breaches_for_domain(email_domain(identifier));
    lemma_scan_marks_seen(seen, log, identifier, bs);
    let st = scan_fold(seen, log, identifier, bs)->Some_0;
    lemma_scan_of_known(st.seen, st.log, identifier, bs);
}

/// Every breach a scan looks at is either new or known.
pub proof fn lemma_scan_counts_add_up(
    seen: Seq<(Seq<char>, Seq<char>)>,
    log: Seq<ActionEntry>,
    identifier: Seq<char>,
    bs: Seq<BreachView>,
)
    requires
        scan_fold(seen, log, identifier, bs) is Some,
    ensures
        scan_fold(seen, log, identifier, bs)->Some_0.new_breaches.len() + scan_fold(seen, log, identifier, bs)->Some_0.known
            == bs.len(),
    decreases bs.len(),
{
    if bs.len() > 0 {
        lemma_scan_counts_add_up(seen, log, identifier, bs.drop_last());
    }
}

} // verus!
