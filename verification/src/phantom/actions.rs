//! Advised actions from breach scans, stored once per breach and text.
use vstd::prelude::*;
use crate::action_log::{
    first_with_key, has_key, insert_outcome, lemma_first_key_exists, pending_order, settle_outcome, count_status, ActionEntry, ActionLog,
    ActionLogError, ActionStatus,
};
use crate::common::{action_rule, actions_for_data_types, actions_view, lowered, severity_label, Severity};
use crate::phantom::breach_db::{breaches_view, BreachInfo, BreachView};
use crate::text::lowercase;

verus! {

/// Stores a pending action for breach `breach_name` unless the same action is
/// stored already; returns the id of the stored action. (Actions of this
/// table belong to no identifier: their identifier is empty.)
pub fn insert_action(log: &mut ActionLog, breach_name: &str, action: &str, severity: &Severity) -> (r: Result<
    i64,
    ActionLogError,
>)
    ensures
        final(log)@ == insert_outcome(old(log)@, breach_name@, ""@, action@, severity_label(*severity)).0,
        match r {
            Ok(id) => insert_outcome(old(log)@, breach_name@, ""@, action@, severity_label(*severity)).1 == Ok::<
                int,
                ActionLogError,
            >(id as int),
            Err(e) => insert_outcome(old(log)@, breach_name@, ""@, action@, severity_label(*severity)).1 == Err::<
                int,
                ActionLogError,
            >(e),
        },
{
    log.insert(breach_name, "", action, severity)
}

/// Marks the pending action `id` done; returns whether there was one.
pub fn mark_done(log: &mut ActionLog, id: i64) -> (changed: bool)
    ensures
        (final(log)@, changed) == settle_outcome(old(log)@, id as int, ActionStatus::Done),
{
    log.settle(id, ActionStatus::Done)
}

/// Marks the pending action `id` skipped; returns whether there was one.
pub fn mark_skipped(log: &mut ActionLog, id: i64) -> (changed: bool)
    ensures
        (final(log)@, changed) == settle_outcome(old(log)@, id as int, ActionStatus::Skipped),
{
    log.settle(id, ActionStatus::Skipped)
}

/// The pending actions as (id, breach, action, severity), most urgent first
/// and by id within a severity.
pub fn get_pending_actions(log: &ActionLog) -> (r: Vec<(i64, String, String, String)>)
    ensures
        r@.len() == pending_order(log@).len(),
        forall|i: int| 0 <= i < r@.len() ==> {
            let e = #[trigger] pending_order(log@)[i];
            &&& r@[i].0 as int == e.id
            &&& r@[i].1@ == e.breach_name
            &&& r@[i].2@ == e.action
            &&& r@[i].3@ == e.severity
        },
{
    let rows = log.pending();
    let mut r: Vec<(i64, String, String, String)> = Vec::new();
    let mut i: usize = 0;
    while i < rows.len()
        invariant
            i <= rows@.len(),
            crate::action_log::entries_view(rows@) == pending_order(log@),
            r@.len() == i,
            forall|k: int| 0 <= k < i ==> {
                let e = #[trigger] pending_order(log@)[k];
                &&& r@[k].0 as int == e.id
                &&& r@[k].1@ == e.breach_name
                &&& r@[k].2@ == e.action
                &&& r@[k].3@ == e.severity
            },
        decreases rows.len() - i,
    {
        let row = &rows[i];
        assert(pending_order(log@)[i as int] == row@);
        r.push((row.id, row.breach_name.clone(), row.action.clone(), row.severity.clone()));
        i += 1;
    }
    r
}

/// The numbers of actions in all, pending, done and skipped.
pub fn get_stats(log: &ActionLog) -> (r: (usize, usize, usize, usize))
    ensures
        r.0 == log@.len(),
        r.1 == count_status(log@, ActionStatus::Pending),
        r.2 == count_status(log@, ActionStatus::Done),
        r.3 == count_status(log@, ActionStatus::Skipped),
{
    log.stats()
}

/// The actions advised for a breach.
pub open spec fn breach_actions(b: BreachView) -> Seq<(Seq<char>, Severity)> {
    action_rule(b.name, b.data_types.map_values(|t: Seq<char>| lowercase(t)))
}

/// The action log after storing `acts` for breach `name` of `identifier` one
/// after the other; `None` when the ids run out on the way.
pub open spec fn insert_actions(
    log: Seq<ActionEntry>,
    name: Seq<char>,
    identifier: Seq<char>,
    acts: Seq<(Seq<char>, Severity)>,
) -> Option<Seq<ActionEntry>>
    decreases acts.len(),
{
    if acts.len() == 0 {
        Some(log)
    } else {
        match insert_actions(log, name, identifier, acts.drop_last()) {
            None => None,
            Some(l) => {
                let o = insert_outcome(l, name, identifier, acts.last().0, severity_label(acts.last().1));
                if o.1 is Ok {
                    Some(o.0)
                } else {
                    None
                }
            },
        }
    }
}

/// The action log after storing `acts` for breach `name` of `identifier` one
/// after the other, up to the first that fails (all of them when none fails).
pub open spec fn stored_log(
    log: Seq<ActionEntry>,
    name: Seq<char>,
    identifier: Seq<char>,
    acts: Seq<(Seq<char>, Severity)>,
) -> Seq<ActionEntry>
    decreases acts.len(),
{
    if acts.len() == 0 {
        log
    } else {
        match insert_actions(log, name, identifier, acts.drop_last()) {
            Some(l) => insert_outcome(l, name, identifier, acts.last().0, severity_label(acts.last().1)).0,
            None => stored_log(log, name, identifier, acts.drop_last()),
        }
    }
}

/// When storing succeeds throughout, the log it leaves is the one stored.
pub proof fn lemma_stored_log_of_success(
    log: Seq<ActionEntry>,
    name: Seq<char>,
    identifier: Seq<char>,
    acts: Seq<(Seq<char>, Severity)>,
)
    requires
        insert_actions(log, name, identifier, acts) is Some,
    ensures
        stored_log(log, name, identifier, acts) == insert_actions(log, name, identifier, acts)->Some_0,
{
}

/// No breach gets more than eight advised actions.
pub proof fn lemma_action_rule_short(name: Seq<char>, ls: Seq<Seq<char>>)
    ensures
        action_rule(name, ls).len() <= 8,
{
}

/// The data types of a breach as owned strings.
fn data_type_strings(b: &BreachInfo) -> (r: Vec<String>)
    ensures
        r@.map_values(|s: String| s@) == b@.data_types,
{
    let mut r: Vec<String> = Vec::new();
    let mut i: usize = 0;
    while i < b.data_types.len()
        invariant
            i <= b.data_types@.len(),
            r@.len() == i,
            r@.map_values(|s: String| s@) == b@.data_types.take(i as int),
        decreases b.data_types.len() - i,
    {
        assert(b@.data_types[i as int] == b.data_types@[i as int]@);
        r.push(String::from_str(b.data_types[i]));
        assert(r@.map_values(|s: String| s@) =~= b@.data_types.take(i + 1));
        i += 1;
    }
    assert(b@.data_types.take(b.data_types@.len() as int) =~= b@.data_types);
    r
}

/// Stores the advised actions for breach `b` of `identifier`, one after the
/// other; returns how many actions were advised.
pub fn store_breach_actions(log: &mut ActionLog, b: &BreachInfo, identifier: &str) -> (r: Result<usize, ActionLogError>)
    ensures
        final(log)@ == stored_log(old(log)@, b@.name, identifier@, breach_actions(b@)),
        match r {
            Ok(n) => insert_actions(old(log)@, b@.name, identifier@, breach_actions(b@)) == Some(final(log)@)
                && n == breach_actions(b@).len(),
            Err(_) => insert_actions(old(log)@, b@.name, identifier@, breach_actions(b@)) is None,
        },
{
    let data_types = data_type_strings(b);
    let actions = actions_for_data_types(b.name, data_types.as_slice());
    proof {
        assert(lowered(data_types@) =~= b@.data_types.map_values(|t: Seq<char>| lowercase(t)));
    }
    let ghost acts = breach_actions(b@);
    assert(actions_view(actions@) == acts);
    let ghost log0 = log@;
    let mut j: usize = 0;
    while j < actions.len()
        invariant
            j <= actions@.len(),
            acts == breach_actions(b@),
            actions_view(actions@) == acts,
            insert_actions(log0, b@.name, identifier@, acts.take(j as int)) == Some(log@),
            log0 == old(log)@,
        decreases actions.len() - j,
    {
        let (text, sev) = &actions[j];
        assert(acts[j as int] == (text@, *sev));
        assert(acts.take(j + 1).drop_last() =~= acts.take(j as int));
        assert(acts.take(j + 1).last() == acts[j as int]);
        let ghost pre = log@;
        let res = log.insert(b.name, identifier, text.as_str(), sev);
        if let Err(e) = res {
            proof {
                assert(insert_outcome(pre, b@.name, identifier@, text@, severity_label(*sev)).1 is Err);
                assert(insert_actions(log0, b@.name, identifier@, acts.take(j + 1)) is None);
                assert(stored_log(log0, b@.name, identifier@, acts.take(j + 1)) == log@);
                lemma_insert_actions_stops(log0, b@.name, identifier@, acts, j as int + 1);
            }
            return Err(e);
        }
        j += 1;
    }
    assert(acts.take(actions@.len() as int) =~= acts);
    proof {
        lemma_stored_log_of_success(log0, b@.name, identifier@, acts);
    }
    Ok(actions.len())
}

/// Once storing fails, storing more fails too.
proof fn lemma_insert_actions_stops(
    log: Seq<ActionEntry>,
    name: Seq<char>,
    identifier: Seq<char>,
    acts: Seq<(Seq<char>, Severity)>,
    j: int,
)
    requires
        0 <= j <= acts.len(),
        insert_actions(log, name, identifier, acts.take(j)) is None,
    ensures
        insert_actions(log, name, identifier, acts) is None,
        stored_log(log, name, identifier, acts) == stored_log(log, name, identifier, acts.take(j)),
    decreases acts.len() - j,
{
    if j < acts.len() {
        assert(acts.take(j + 1).drop_last() =~= acts.take(j));
        lemma_insert_actions_stops(log, name, identifier, acts, j + 1);
    } else {
        assert(acts.take(j) =~= acts);
    }
}

/// The action log after storing the advised actions of breaches `bs` in
/// order, for no identifier; `None` when the ids run out on the way.
pub open spec fn scan_actions_outcome(log: Seq<ActionEntry>, bs: Seq<BreachView>) -> Option<Seq<ActionEntry>>
    decreases bs.len(),
{
    if bs.len() == 0 {
        Some(log)
    } else {
        match scan_actions_outcome(log, bs.drop_last()) {
            None => None,
            Some(l) => insert_actions(l, bs.last().name, ""@, breach_actions(bs.last())),
        }
    }
}

/// The action log after storing the advised actions of breaches `bs` in
/// order, for no identifier, up to the first action that fails (all of them
/// when none fails).
pub open spec fn scan_actions_log(log: Seq<ActionEntry>, bs: Seq<BreachView>) -> Seq<ActionEntry>
    decreases bs.len(),
{
    if bs.len() == 0 {
        log
    } else {
        match scan_actions_outcome(log, bs.drop_last()) {
            Some(l) => stored_log(l, bs.last().name, ""@, breach_actions(bs.last())),
            None => scan_actions_log(log, bs.drop_last()),
        }
    }
}

/// The number of actions advised for breaches `bs` in all.
pub open spec fn advised_count(bs: Seq<BreachView>) -> nat
    decreases bs.len(),
{
    if bs.len() == 0 {
        0
    } else {
        advised_count(bs.drop_last()) + breach_actions(bs.last()).len()
    }
}

/// Stores the advised actions of every breach found by a scan, breach by
/// breach; returns how many actions were advised (an action stored before
/// counts too).
pub fn store_scan_actions(log: &mut ActionLog, breaches: &Vec<BreachInfo>) -> (r: Result<usize, ActionLogError>)
    requires
        8 * breaches@.len() <= usize::MAX,
    ensures
        final(log)@ == scan_actions_log(old(log)@, breaches_view(breaches@)),
        match r {
            Ok(n) => scan_actions_outcome(old(log)@, breaches_view(breaches@)) == Some(final(log)@)
                && n == advised_count(breaches_view(breaches@)),
            Err(_) => scan_actions_outcome(old(log)@, breaches_view(breaches@)) is None,
        },
{
    let ghost bs = breaches_view(breaches@);
    let ghost log0 = log@;
    let mut count: usize = 0;
    let mut i: usize = 0;
    while i < breaches.len()
        invariant
            i <= breaches@.len(),
            8 * breaches@.len() <= usize::MAX,
            bs == breaches_view(breaches@),
            log0 == old(log)@,
            scan_actions_outcome(log0, bs.take(i as int)) == Some(log@),
            count == advised_count(bs.take(i as int)),
            count <= 8 * i,
        decreases breaches.len() - i,
    {
        let b = &breaches[i];
        assert(bs[i as int] == b@);
        assert(bs.take(i + 1).drop_last() =~= bs.take(i as int));
        assert(bs.take(i + 1).last() == b@);
        proof {
            lemma_action_rule_short(b@.name, b@.data_types.map_values(|t: Seq<char>| lowercase(t)));
        }
        match store_breach_actions(log, b, "") {
            Ok(n) => {
                count += n;
            },
            Err(e) => {
                proof {
                    assert(scan_actions_log(log0, bs.take(i + 1)) == log@);
                    lemma_scan_actions_stop(log0, bs, i as int + 1);
                }
                return Err(e);
            },
        }
        i += 1;
    }
    assert(bs.take(breaches@.len() as int) =~= bs);
    proof {
        lemma_scan_actions_log_of_success(log0, bs);
    }
    Ok(count)
}

/// Once storing the actions of a scan fails, storing those of more breaches fails too.
proof fn lemma_scan_actions_stop(log: Seq<ActionEntry>, bs: Seq<BreachView>, j: int)
    requires
        0 <= j <= bs.len(),
        scan_actions_outcome(log, bs.take(j)) is None,
    ensures
        scan_actions_outcome(log, bs) is None,
        scan_actions_log(log, bs) == scan_actions_log(log, bs.take(j)),
    decreases bs.len() - j,
{
    if j < bs.len() {
        assert(bs.take(j + 1).drop_last() =~= bs.take(j));
        lemma_scan_actions_stop(log, bs, j + 1);
    } else {
        assert(bs.take(j) =~= bs);
    }
}

/// When storing the actions of a scan succeeds throughout, the log it leaves
/// is the one stored.
proof fn lemma_scan_actions_log_of_success(log: Seq<ActionEntry>, bs: Seq<BreachView>)
    requires
        scan_actions_outcome(log, bs) is Some,
    ensures
        scan_actions_log(log, bs) == scan_actions_outcome(log, bs)->Some_0,
{
    if bs.len() > 0 {
        let l = scan_actions_outcome(log, bs.drop_last())->Some_0;
        lemma_stored_log_of_success(l, bs.last().name, ""@, breach_actions(bs.last()));
    }
}

/// Some row of the log stores this action for this breach and identifier.
pub open spec fn key_stored(es: Seq<ActionEntry>, b: Seq<char>, idf: Seq<char>, a: Seq<char>) -> bool {
    exists|i: int| 0 <= i < es.len() && #[trigger] has_key(es[i], b, idf, a)
}

/// Storing an action keeps every stored key, and when it succeeds its own key
/// is stored afterwards; storing an action whose key is stored changes nothing.
proof fn lemma_insert_keys(es: Seq<ActionEntry>, b: Seq<char>, idf: Seq<char>, a: Seq<char>, sev: Seq<char>)
    ensures
        forall|b2: Seq<char>, i2: Seq<char>, a2: Seq<char>| #[trigger] key_stored(es, b2, i2, a2) ==> key_stored(
            insert_outcome(es, b, idf, a, sev).0,
            b2,
            i2,
            a2,
        ),
        insert_outcome(es, b, idf, a, sev).1 is Ok ==> key_stored(insert_outcome(es, b, idf, a, sev).0, b, idf, a),
        key_stored(es, b, idf, a) ==> insert_outcome(es, b, idf, a, sev).0 == es && insert_outcome(es, b, idf, a, sev).1 is Ok,
{
    let o = insert_outcome(es, b, idf, a, sev);
    if key_stored(es, b, idf, a) {
        let i = choose|i: int| 0 <= i < es.len() && #[trigger] has_key(es[i], b, idf, a);
        lemma_first_key_exists(es, b, idf, a, i);
    }
    if exists|f: int| first_with_key(es, b, idf, a, f) {
        let f = choose|f: int| first_with_key(es, b, idf, a, f);
        assert(has_key(es[f], b, idf, a));
    } else if o.1 is Ok {
        assert(has_key(o.0[es.len() as int], b, idf, a));
        assert forall|b2: Seq<char>, i2: Seq<char>, a2: Seq<char>| #[trigger] key_stored(es, b2, i2, a2) implies key_stored(o.0, b2, i2, a2) by {
            let i = choose|i: int| 0 <= i < es.len() && #[trigger] has_key(es[i], b2, i2, a2);
            assert(o.0[i] == es[i]);
        }
    }
}

/// After storing `acts`, every stored key is still stored and each action of
/// `acts` is stored.
proof fn lemma_insert_actions_keys(
    log: Seq<ActionEntry>,
    name: Seq<char>,
    idf: Seq<char>,
    acts: Seq<(Seq<char>, Severity)>,
)
    requires
        insert_actions(log, name, idf, acts) is Some,
    ensures
        forall|b2: Seq<char>, i2: Seq<char>, a2: Seq<char>| #[trigger] key_stored(log, b2, i2, a2) ==> key_stored(
            insert_actions(log, name, idf, acts)->Some_0,
            b2,
            i2,
            a2,
        ),
        forall|j: int| 0 <= j < acts.len() ==> key_stored(insert_actions(log, name, idf, acts)->Some_0, name, idf, #[trigger] acts[j].0),
    decreases acts.len(),
{
    if acts.len() > 0 {
        let rest = acts.drop_last();
        lemma_insert_actions_keys(log, name, idf, rest);
        let l = insert_actions(log, name, idf, rest)->Some_0;
        lemma_insert_keys(l, name, idf, acts.last().0, severity_label(acts.last().1));
        assert forall|j: int| 0 <= j < acts.len() implies key_stored(insert_actions(log, name, idf, acts)->Some_0, name, idf, #[trigger] acts[j].0) by {
            if j < acts.len() - 1 {
                assert(rest[j] == acts[j]);
                assert(key_stored(l, name, idf, rest[j].0));
            }
        }
    }
}

/// Storing actions that are all stored already changes nothing.
proof fn lemma_insert_actions_stored(
    log: Seq<ActionEntry>,
    name: Seq<char>,
    idf: Seq<char>,
    acts: Seq<(Seq<char>, Severity)>,
)
    requires
        forall|j: int| 0 <= j < acts.len() ==> key_stored(log, name, idf, #[trigger] acts[j].0),
    ensures
        insert_actions(log, name, idf, acts) == Some(log),
    decreases acts.len(),
{
    if acts.len() > 0 {
        let rest = acts.drop_last();
        assert forall|j: int| 0 <= j < rest.len() implies key_stored(log, name, idf, #[trigger] rest[j].0) by {
            assert(rest[j] == acts[j]);
        }
        lemma_insert_actions_stored(log, name, idf, rest);
        assert(key_stored(log, name, idf, acts[acts.len() - 1].0));
        lemma_insert_keys(log, name, idf, acts.last().0, severity_label(acts.last().1));
    }
}

/// After the actions of breaches `bs` were stored, every key stored before is
/// still stored and every advised action of every breach is stored.
proof fn lemma_scan_actions_keys(log: Seq<ActionEntry>, bs: Seq<BreachView>)
    requires
        scan_actions_outcome(log, bs) is Some,
    ensures
        forall|b2: Seq<char>, i2: Seq<char>, a2: Seq<char>| #[trigger] key_stored(log, b2, i2, a2) ==> key_stored(
            scan_actions_outcome(log, bs)->Some_0,
            b2,
            i2,
            a2,
        ),
        forall|i: int, j: int|
            0 <= i < bs.len() && 0 <= j < breach_actions(bs[i]).len() ==> key_stored(
                scan_actions_outcome(log, bs)->Some_0,
                bs[i].name,
                ""@,
                #[trigger] breach_actions(bs[i])[j].0,
            ),
    decreases bs.len(),
{
    if bs.len() > 0 {
        let rest = bs.drop_last();
        lemma_scan_actions_keys(log, rest);
        let l = scan_actions_outcome(log, rest)->Some_0;
        let b = bs.last();
        lemma_insert_actions_keys(l, b.name, ""@, breach_actions(b));
        let fin = scan_actions_outcome(log, bs)->Some_0;
        assert forall|i: int, j: int| 0 <= i < bs.len() && 0 <= j < breach_actions(bs[i]).len() implies key_stored(
            fin,
            bs[i].name,
            ""@,
            #[trigger] breach_actions(bs[i])[j].0,
        ) by {
            if i < bs.len() - 1 {
                assert(rest[i] == bs[i]);
                assert(key_stored(l, rest[i].name, ""@, breach_actions(rest[i])[j].0));
            }
        }
    }
}

/// Storing the actions of breaches whose advised actions are all stored
/// already changes nothing.
proof fn lemma_scan_actions_stored(log: Seq<ActionEntry>, bs: Seq<BreachView>)
    requires
        forall|i: int, j: int|
            0 <= i < bs.len() && 0 <= j < breach_actions(bs[i]).len() ==> key_stored(
                log,
                bs[i].name,
                ""@,
                #[trigger] breach_actions(bs[i])[j].0,
            ),
    ensures
        scan_actions_outcome(log, bs) == Some(log),
    decreases bs.len(),
{
    if bs.len() > 0 {
        let rest = bs.drop_last();
        assert forall|i: int, j: int| 0 <= i < rest.len() && 0 <= j < breach_actions(rest[i]).len() implies key_stored(
            log,
            rest[i].name,
            ""@,
            #[trigger] breach_actions(rest[i])[j].0,
        ) by {
            assert(rest[i] == bs[i]);
        }
        lemma_scan_actions_stored(log, rest);
        let b = bs.last();
        assert forall|j: int| 0 <= j < breach_actions(b).len() implies key_stored(log, b.name, ""@, #[trigger] breach_actions(b)[j].0) by {
            assert(b == bs[bs.len() - 1]);
        }
        lemma_insert_actions_stored(log, b.name, ""@, breach_actions(b));
    }
}

/// Storing the actions of the same breaches a second time stores nothing new:
/// every advised action is found already.
pub proof fn lemma_repeat_scan_stores_nothing(log: Seq<ActionEntry>, bs: Seq<BreachView>)
    requires
        scan_actions_outcome(log, bs) is Some,
    ensures
        scan_actions_outcome(scan_actions_outcome(log, bs)->Some_0, bs) == scan_actions_outcome(log, bs),
{
    lemma_scan_actions_keys(log, bs);
    lemma_scan_actions_stored(scan_actions_outcome(log, bs)->Some_0, bs);
}

} // verus!
