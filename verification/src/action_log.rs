//! A log of advised actions with their progress, as kept in an action table:
//! each action is stored once per breach, identifier and text, gets the next
//! id, starts pending and can be completed or skipped once.
use vstd::prelude::*;
use crate::common::Severity;
use crate::text::str_eq;

verus! {

/// Where an action stands.
#[derive(Debug, Clone, Copy, PartialEq, Eq, Structural)]
pub enum ActionStatus {
    Pending,
    Done,
    Skipped,
}

impl ActionStatus {
    /// The label stored for this status.
    pub fn as_str(&self) -> (r: &'static str)
        ensures
            r@ == status_label(*self),
    {
        match self {
            ActionStatus::Pending => "pending",
            ActionStatus::Done => "done",
            ActionStatus::Skipped => "skipped",
        }
    }
}

/// The label stored for a status.
pub open spec fn status_label(s: ActionStatus) -> Seq<char> {
    match s {
        ActionStatus::Pending => "pending"@,
        ActionStatus::Done => "done"@,
        ActionStatus::Skipped => "skipped"@,
    }
}

/// One row of an action table.
#[derive(Debug)]
pub struct ActionRow {
    pub id: i64,
    pub breach_name: String,
    pub identifier: String,
    pub action: String,
    pub severity: String,
    pub status: ActionStatus,
}

/// A row as plain values.
pub struct ActionEntry {
    pub id: int,
    pub breach_name: Seq<char>,
    pub identifier: Seq<char>,
    pub action: Seq<char>,
    pub severity: Seq<char>,
    pub status: ActionStatus,
}

impl View for ActionRow {
    type V = ActionEntry;

    open spec fn view(&self) -> ActionEntry {
        ActionEntry {
            id: self.id as int,
            breach_name: self.breach_name@,
            identifier: self.identifier@,
            action: self.action@,
            severity: self.severity@,
            status: self.status,
        }
    }
}

/// The views of a list of rows.
pub open spec fn entries_view(v: Seq<ActionRow>) -> Seq<ActionEntry> {
    v.map_values(|r: ActionRow| r@)
}

/// Ids are positive and strictly increase along the log.
pub open spec fn ids_increasing(es: Seq<ActionEntry>) -> bool {
    &&& forall|i: int| 0 <= i < es.len() ==> #[trigger] es[i].id >= 1
    &&& forall|i: int, j: int| 0 <= i < j < es.len() ==> #[trigger] es[i].id < #[trigger] es[j].id
}

/// The row stores this action for this breach and identifier.
pub open spec fn has_key(e: ActionEntry, breach_name: Seq<char>, identifier: Seq<char>, action: Seq<char>) -> bool {
    e.breach_name == breach_name && e.identifier == identifier && e.action == action
}

/// `i` is the first row that stores this action for this breach and identifier.
pub open spec fn first_with_key(es: Seq<ActionEntry>, b: Seq<char>, idf: Seq<char>, a: Seq<char>, i: int) -> bool {
    0 <= i < es.len() && has_key(es[i], b, idf, a) && forall|k: int| 0 <= k < i ==> !#[trigger] has_key(es[k], b, idf, a)
}

/// The id the next stored row gets: one more than the last id, or 1.
pub open spec fn next_id(es: Seq<ActionEntry>) -> int {
    if es.len() == 0 {
        1
    } else {
        es.last().id + 1
    }
}

/// Why an action could not be stored.
#[derive(Debug, Clone, Copy, PartialEq, Eq, Structural)]
pub enum ActionLogError {
    /// The next id would exceed the largest 64-bit id.
    IdsExhausted,
}

/// The outcome of storing an action: the log after it and the result.
pub open spec fn insert_outcome(
    es: Seq<ActionEntry>,
    b: Seq<char>,
    idf: Seq<char>,
    a: Seq<char>,
    sev: Seq<char>,
) -> (Seq<ActionEntry>, Result<int, ActionLogError>) {
    if exists|i: int| first_with_key(es, b, idf, a, i) {
        (es, Ok(es[choose|i: int| first_with_key(es, b, idf, a, i)].id))
    } else if next_id(es) > i64::MAX {
        (es, Err(ActionLogError::IdsExhausted))
    } else {
        (
            es.push(ActionEntry { id: next_id(es), breach_name: b, identifier: idf, action: a, severity: sev, status: ActionStatus::Pending }),
            Ok(next_id(es)),
        )
    }
}

/// The log after a pending action with this id is given `status`; unchanged
/// when no pending action has this id.
pub open spec fn settle_outcome(es: Seq<ActionEntry>, id: int, status: ActionStatus) -> (Seq<ActionEntry>, bool) {
    if exists|i: int| 0 <= i < es.len() && es[i].id == id && es[i].status == ActionStatus::Pending {
        let i = choose|i: int| 0 <= i < es.len() && es[i].id == id && es[i].status == ActionStatus::Pending;
        (es.update(i, ActionEntry { status, ..es[i] }), true)
    } else {
        (es, false)
    }
}

/// The rank by which pending actions are ordered: critical first, then high,
/// then medium, then anything else.
pub open spec fn severity_rank(sev: Seq<char>) -> int {
    if sev == "CRITICAL"@ {
        1
    } else if sev == "HIGH"@ {
        2
    } else if sev == "MEDIUM"@ {
        3
    } else {
        4
    }
}

/// The pending rows of rank `r`, in log order.
pub open spec fn pending_of_rank(es: Seq<ActionEntry>, r: int) -> Seq<ActionEntry> {
    es.filter(|e: ActionEntry| e.status == ActionStatus::Pending && severity_rank(e.severity) == r)
}

/// The pending rows, most urgent rank first and by id within a rank.
pub open spec fn pending_order(es: Seq<ActionEntry>) -> Seq<ActionEntry> {
    pending_of_rank(es, 1) + pending_of_rank(es, 2) + pending_of_rank(es, 3) + pending_of_rank(es, 4)
}

/// The number of rows with this status.
pub open spec fn count_status(es: Seq<ActionEntry>, s: ActionStatus) -> nat {
    es.filter(|e: ActionEntry| e.status == s).len()
}

/// A log of advised actions, ids positive and strictly increasing.
pub struct ActionLog {
    rows: Vec<ActionRow>,
}

impl View for ActionLog {
    type V = Seq<ActionEntry>;

    closed spec fn view(&self) -> Seq<ActionEntry> {
        entries_view(self.rows@)
    }
}

impl ActionLog {
    #[verifier::type_invariant]
    closed spec fn well_formed(self) -> bool {
        ids_increasing(entries_view(self.rows@))
    }

    /// An empty log.
    pub fn new() -> (r: ActionLog)
        ensures
            r@ == Seq::<ActionEntry>::empty(),
            ids_increasing(r@),
    {
        let r = ActionLog { rows: Vec::new() };
        assert(r@ =~= Seq::<ActionEntry>::empty());
        r
    }

    /// The number of rows.
    pub fn len(&self) -> (r: usize)
        ensures
            r == self@.len(),
            ids_increasing(self@),
    {
        proof {
            use_type_invariant(self);
        }
        self.rows.len()
    }

    /// Every row, in id order.
    pub fn rows(&self) -> (r: &Vec<ActionRow>)
        ensures
            entries_view(r@) == self@,
    {
        &self.rows
    }

    /// Appends a stored row read back from the table; refused (and the log
    /// unchanged) unless its id is positive and above every id held.
    pub fn load(&mut self, row: ActionRow) -> (accepted: bool)
        ensures
            accepted == (row.id >= 1 && (old(self)@.len() == 0 || old(self)@.last().id < row.id)),
            final(self)@ == if accepted { old(self)@.push(row@) } else { old(self)@ },
            ids_increasing(old(self)@),
            ids_increasing(final(self)@),
    {
        proof {
            use_type_invariant(&*self);
        }
        let ok = row.id >= 1 && (self.rows.len() == 0 || self.rows[self.rows.len() - 1].id < row.id);
        if !ok {
            return false;
        }
        let ghost before = self@;
        let mut rows: Vec<ActionRow> = Vec::new();
        std::mem::swap(&mut rows, &mut self.rows);
        rows.push(row);
        proof {
            assert(entries_view(rows@) =~= before.push(row@));
            assert(ids_increasing(entries_view(rows@))) by {
                assert forall|i: int, j: int| 0 <= i < j < entries_view(rows@).len() implies #[trigger] entries_view(rows@)[i].id < #[trigger] entries_view(rows@)[j].id by {
                    if j == before.len() && i < before.len() - 1 {
                        assert(before[i].id < before[before.len() - 1].id);
                    }
                }
            }
        }
        self.rows = rows;
        true
    }
    /// The position of the first row storing this action for this breach and
    /// identifier, if any.
    fn find_key(&self, breach_name: &str, identifier: &str, action: &str) -> (r: Option<usize>)
        ensures
            match r {
                Some(i) => first_with_key(self@, breach_name@, identifier@, action@, i as int),
                None => forall|k: int| 0 <= k < self@.len() ==> !#[trigger] has_key(self@[k], breach_name@, identifier@, action@),
            },
    {
        let mut i: usize = 0;
        while i < self.rows.len()
            invariant
                i <= self@.len(),
                self@.len() == self.rows@.len(),
                forall|k: int| 0 <= k < i ==> !#[trigger] has_key(self@[k], breach_name@, identifier@, action@),
            decreases self.rows.len() - i,
        {
            let row = &self.rows[i];
            assert(self@[i as int] == row@);
            if str_eq(row.breach_name.as_str(), breach_name) && str_eq(row.identifier.as_str(), identifier)
                && str_eq(row.action.as_str(), action) {
                return Some(i);
            }
            i += 1;
        }
        None
    }

    /// Stores a pending action for this breach and identifier unless the same
    /// action is stored already, and returns the id of the stored row.
    pub fn insert(&mut self, breach_name: &str, identifier: &str, action: &str, severity: &Severity) -> (r: Result<i64, ActionLogError>)
        ensures
            final(self)@ == insert_outcome(old(self)@, breach_name@, identifier@, action@, crate::common::severity_label(*severity)).0,
            match r {
                Ok(id) => insert_outcome(old(self)@, breach_name@, identifier@, action@, crate::common::severity_label(*severity)).1 == Ok::<int, ActionLogError>(id as int),
                Err(e) => insert_outcome(old(self)@, breach_name@, identifier@, action@, crate::common::severity_label(*severity)).1 == Err::<int, ActionLogError>(e),
            },
            ids_increasing(old(self)@),
            ids_increasing(final(self)@),
    {
        proof {
            use_type_invariant(&*self);
        }
        let ghost es = self@;
        match self.find_key(breach_name, identifier, action) {
            Some(i) => {
                proof {
                    let c = choose|c: int| first_with_key(es, breach_name@, identifier@, action@, c);
                    if c < i {
                        assert(!has_key(es[c], breach_name@, identifier@, action@));
                    }
                    if i < c {
                        assert(!has_key(es[i as int], breach_name@, identifier@, action@));
                    }
                }
                let id = self.rows[i].id;
                return Ok(id);
            },
            None => {},
        }
        assert(!exists|c: int| first_with_key(es, breach_name@, identifier@, action@, c));
        let id: i64 = if self.rows.len() == 0 {
            1
        } else {
            let last = self.rows[self.rows.len() - 1].id;
            if last == i64::MAX {
                return Err(ActionLogError::IdsExhausted);
            }
            last + 1
        };
        let row = ActionRow {
            id,
            breach_name: String::from_str(breach_name),
            identifier: String::from_str(identifier),
            action: String::from_str(action),
            severity: String::from_str(severity.as_str()),
            status: ActionStatus::Pending,
        };
        let mut rows: Vec<ActionRow> = Vec::new();
        std::mem::swap(&mut rows, &mut self.rows);
        rows.push(row);
        proof {
            assert(entries_view(rows@) =~= insert_outcome(es, breach_name@, identifier@, action@, crate::common::severity_label(*severity)).0);
            assert(ids_increasing(entries_view(rows@))) by {
                let v = entries_view(rows@);
                assert forall|a: int, b: int| 0 <= a < b < v.len() implies #[trigger] v[a].id < #[trigger] v[b].id by {
                    if b == es.len() && a < es.len() - 1 {
                        assert(es[a].id < es[es.len() - 1].id);
                    }
                }
            }
        }
        self.rows = rows;
        Ok(id)
    }

    /// The position of the row with this id, if any.
    fn find_id(&self, id: i64) -> (r: Option<usize>)
        ensures
            match r {
                Some(i) => i < self@.len() && self@[i as int].id == id,
                None => forall|k: int| 0 <= k < self@.len() ==> self@[k].id != id,
            },
    {
        let mut i: usize = 0;
        while i < self.rows.len()
            invariant
                i <= self@.len(),
                self@.len() == self.rows@.len(),
                forall|k: int| 0 <= k < i ==> self@[k].id != id,
            decreases self.rows.len() - i,
        {
            assert(self@[i as int] == self.rows@[i as int]@);
            if self.rows[i].id == id {
                return Some(i);
            }
            i += 1;
        }
        None
    }

    /// Gives the pending action with this id the status `status`; returns
    /// whether there was such a pending action.
    pub fn settle(&mut self, id: i64, status: ActionStatus) -> (changed: bool)
        ensures
            (final(self)@, changed) == settle_outcome(old(self)@, id as int, status),
            ids_increasing(old(self)@),
            ids_increasing(final(self)@),
    {
        proof {
            use_type_invariant(&*self);
        }
        let ghost es = self@;
        match self.find_id(id) {
            None => {
                assert(!exists|i: int| 0 <= i < es.len() && es[i].id == id && es[i].status == ActionStatus::Pending);
                false
            },
            Some(i) => {
                if self.rows[i].status != ActionStatus::Pending {
                    assert(!exists|k: int| 0 <= k < es.len() && es[k].id == id && es[k].status == ActionStatus::Pending) by {
                        if exists|k: int| 0 <= k < es.len() && es[k].id == id && es[k].status == ActionStatus::Pending {
                            let k = choose|k: int| 0 <= k < es.len() && es[k].id == id && es[k].status == ActionStatus::Pending;
                            if k < i {
                                assert(es[k].id < es[i as int].id);
                            }
                            if i < k {
                                assert(es[i as int].id < es[k].id);
                            }
                        }
                    }
                    return false;
                }
                proof {
                    let k = choose|k: int| 0 <= k < es.len() && es[k].id == id && es[k].status == ActionStatus::Pending;
                    if k < i {
                        assert(es[k].id < es[i as int].id);
                    }
                    if i < k {
                        assert(es[i as int].id < es[k].id);
                    }
                }
                let mut rows: Vec<ActionRow> = Vec::new();
                std::mem::swap(&mut rows, &mut self.rows);
                let mut row = rows.remove(i);
                row.status = status;
                rows.insert(i, row);
                proof {
                    assert(entries_view(rows@) =~= es.update(i as int, ActionEntry { status, ..es[i as int] }));
                    let v = entries_view(rows@);
                    assert forall|a: int, b: int| 0 <= a < b < v.len() implies #[trigger] v[a].id < #[trigger] v[b].id by {
                        assert(v[a].id == es[a].id && v[b].id == es[b].id);
                    }
                    assert forall|a: int| 0 <= a < v.len() implies #[trigger] v[a].id >= 1 by {
                        assert(v[a].id == es[a].id);
                    }
                }
                self.rows = rows;
                true
            },
        }
    }

    /// A copy of the row at `i`.
    fn copy_row(&self, i: usize) -> (r: ActionRow)
        requires
            i < self@.len(),
        ensures
            r@ == self@[i as int],
    {
        let row = &self.rows[i];
        ActionRow {
            id: row.id,
            breach_name: row.breach_name.clone(),
            identifier: row.identifier.clone(),
            action: row.action.clone(),
            severity: row.severity.clone(),
            status: row.status,
        }
    }

    /// The pending rows, most urgent first (critical, high, medium, then any
    /// other severity) and by id within a severity.
    pub fn pending(&self) -> (r: Vec<ActionRow>)
        ensures
            entries_view(r@) == pending_order(self@),
            ids_increasing(self@),
    {
        proof {
            use_type_invariant(self);
        }
        let mut out: Vec<ActionRow> = Vec::new();
        let mut rank: usize = 1;
        while rank <= 4
            invariant
                1 <= rank <= 5,
                self@.len() == self.rows@.len(),
                entries_view(out@) == (if rank == 1 { Seq::<ActionEntry>::empty() } else if rank == 2 { pending_of_rank(self@, 1) } else if rank == 3 { pending_of_rank(self@, 1) + pending_of_rank(self@, 2) } else if rank == 4 { pending_of_rank(self@, 1) + pending_of_rank(self@, 2) + pending_of_rank(self@, 3) } else { pending_order(self@) }),
            decreases 5 - rank,
        {
            let ghost prefix = entries_view(out@);
            let ghost pred = |e: ActionEntry| e.status == ActionStatus::Pending && severity_rank(e.severity) == rank as int;
            let mut i: usize = 0;
            while i < self.rows.len()
                invariant
                    1 <= rank <= 4,
                    i <= self@.len(),
                    self@.len() == self.rows@.len(),
                    pred == (|e: ActionEntry| e.status == ActionStatus::Pending && severity_rank(e.severity) == rank as int),
                    entries_view(out@) == prefix + self@.take(i as int).filter(pred),
                decreases self.rows.len() - i,
            {
                let row = &self.rows[i];
                assert(self@[i as int] == row@);
                let r = severity_rank_of(row.severity.as_str());
                let hit = row.status == ActionStatus::Pending && r == rank;
                assert(pred(self@[i as int]) == hit);
                assert(self@.take(i + 1).last() == self@[i as int]);
                proof {
                    reveal_with_fuel(Seq::<_>::filter, 1);
                    assert(self@.take(i + 1).drop_last() =~= self@.take(i as int));
                }
                if hit {
                    let copy = self.copy_row(i);
                    let ghost cv = copy@;
                    let ghost old_out = out@;
                    out.push(copy);
                    assert(entries_view(out@) =~= entries_view(old_out).push(cv));
                    assert(self@.take(i + 1).filter(pred) == self@.take(i as int).filter(pred).push(self@[i as int]));
                    assert(entries_view(out@) =~= prefix + self@.take(i + 1).filter(pred));
                } else {
                    assert(self@.take(i + 1).filter(pred) == self@.take(i as int).filter(pred));
                    assert(entries_view(out@) =~= prefix + self@.take(i + 1).filter(pred));
                }
                i += 1;
            }
            assert(self@.take(self@.len() as int) =~= self@);
            assert(self@.filter(pred) == pending_of_rank(self@, rank as int));
            rank += 1;
        }
        out
    }

    /// The numbers of rows in all, pending, done and skipped.
    pub fn stats(&self) -> (r: (usize, usize, usize, usize))
        ensures
            r.0 == self@.len(),
            r.1 == count_status(self@, ActionStatus::Pending),
            r.2 == count_status(self@, ActionStatus::Done),
            r.3 == count_status(self@, ActionStatus::Skipped),
    {
        (
            self.rows.len(),
            self.count(ActionStatus::Pending),
            self.count(ActionStatus::Done),
            self.count(ActionStatus::Skipped),
        )
    }

    /// The number of rows with status `s`.
    fn count(&self, s: ActionStatus) -> (r: usize)
        ensures
            r == count_status(self@, s),
    {
        let ghost pred = |e: ActionEntry| e.status == s;
        let mut n: usize = 0;
        let mut i: usize = 0;
        while i < self.rows.len()
            invariant
                i <= self@.len(),
                self@.len() == self.rows@.len(),
                pred == (|e: ActionEntry| e.status == s),
                n == self@.take(i as int).filter(pred).len(),
                n <= i,
            decreases self.rows.len() - i,
        {
            assert(self@[i as int] == self.rows@[i as int]@);
            proof {
                reveal_with_fuel(Seq::<_>::filter, 1);
                assert(self@.take(i + 1).drop_last() =~= self@.take(i as int));
            }
            if self.rows[i].status == s {
                n += 1;
            }
            i += 1;
        }
        assert(self@.take(self@.len() as int) =~= self@);
        n
    }
}

/// The rank of a stored severity label.
fn severity_rank_of(sev: &str) -> (r: usize)
    ensures
        r == severity_rank(sev@),
{
    if str_eq(sev, "CRITICAL") {
        1
    } else if str_eq(sev, "HIGH") {
        2
    } else if str_eq(sev, "MEDIUM") {
        3
    } else {
        4
    }
}

/// Every row is pending, done or skipped: the counts add up to the total.
pub proof fn lemma_stats_add_up(es: Seq<ActionEntry>)
    ensures
        count_status(es, ActionStatus::Pending) + count_status(es, ActionStatus::Done) + count_status(
            es,
            ActionStatus::Skipped,
        ) == es.len(),
    decreases es.len(),
{
    reveal_with_fuel(Seq::<_>::filter, 1);
    if es.len() > 0 {
        lemma_stats_add_up(es.drop_last());
    }
}

/// When some row stores the key, a first row storing it exists.
pub proof fn lemma_first_key_exists(es: Seq<ActionEntry>, b: Seq<char>, idf: Seq<char>, a: Seq<char>, k: int)
    requires
        0 <= k < es.len(),
        has_key(es[k], b, idf, a),
    ensures
        exists|i: int| first_with_key(es, b, idf, a, i),
    decreases k,
{
    if exists|m: int| 0 <= m < k && #[trigger] has_key(es[m], b, idf, a) {
        let m = choose|m: int| 0 <= m < k && #[trigger] has_key(es[m], b, idf, a);
        lemma_first_key_exists(es, b, idf, a, m);
    } else {
        assert(first_with_key(es, b, idf, a, k));
    }
}

/// Storing the same action for the same breach and identifier again changes
/// nothing and gives back the id it got the first time.
pub proof fn lemma_insert_idempotent(
    es: Seq<ActionEntry>,
    b: Seq<char>,
    idf: Seq<char>,
    a: Seq<char>,
    sev: Seq<char>,
    sev2: Seq<char>,
)
    requires
        insert_outcome(es, b, idf, a, sev).1 is Ok,
    ensures
        insert_outcome(insert_outcome(es, b, idf, a, sev).0, b, idf, a, sev2) == insert_outcome(
            es,
            b,
            idf,
            a,
            sev,
        ),
{
    let es1 = insert_outcome(es, b, idf, a, sev).0;
    if exists|i: int| first_with_key(es, b, idf, a, i) {
    } else {
        assert forall|k: int| 0 <= k < es.len() implies !#[trigger] has_key(es1[k], b, idf, a) by {
            assert(es1[k] == es[k]);
            if has_key(es[k], b, idf, a) {
                lemma_first_key_exists(es, b, idf, a, k);
            }
        }
        assert(first_with_key(es1, b, idf, a, es.len() as int));
        let c = choose|c: int| first_with_key(es1, b, idf, a, c);
        if c < es.len() {
            assert(es1[c] == es[c]);
            assert(first_with_key(es, b, idf, a, c));
        }
        if c > es.len() {
            assert(!has_key(es1[es.len() as int], b, idf, a));
        }
    }
}

/// An action is completed or skipped at most once: once settled, a second
/// attempt on the same id fails.
pub proof fn lemma_settle_once(es: Seq<ActionEntry>, id: int, s1: ActionStatus, s2: ActionStatus)
    requires
        ids_increasing(es),
        s1 != ActionStatus::Pending,
        settle_outcome(es, id, s1).1,
    ensures
        !settle_outcome(settle_outcome(es, id, s1).0, id, s2).1,
        settle_outcome(settle_outcome(es, id, s1).0, id, s2).0 == settle_outcome(es, id, s1).0,
{
    let i = choose|i: int| 0 <= i < es.len() && es[i].id == id && es[i].status == ActionStatus::Pending;
    let es1 = settle_outcome(es, id, s1).0;
    assert forall|k: int| 0 <= k < es1.len() && es1[k].id == id implies es1[k].status != ActionStatus::Pending by {
        if k < i {
            assert(es[k].id < es[i].id);
        }
        if k > i {
            assert(es[i].id < es[k].id);
        }
    }
}

/// The pending list holds exactly the pending rows of the log.
pub proof fn lemma_pending_exact(es: Seq<ActionEntry>)
    ensures
        forall|e: ActionEntry| #[trigger] pending_order(es).contains(e) <==> (es.contains(e) && e.status == ActionStatus::Pending),
{
    broadcast use vstd::seq_lib::group_filter_ensures;
    assert forall|e: ActionEntry| #[trigger] pending_order(es).contains(e) <==> (es.contains(e) && e.status == ActionStatus::Pending) by {
        let r = severity_rank(e.severity);
        let p = |x: ActionEntry| x.status == ActionStatus::Pending && severity_rank(x.severity) == r;
        let po = pending_order(es);
        let b1 = pending_of_rank(es, 1);
        let b2 = pending_of_rank(es, 2);
        let b3 = pending_of_rank(es, 3);
        let b4 = pending_of_rank(es, 4);
        assert(po == b1 + b2 + b3 + b4);
        if po.contains(e) {
            let j = choose|j: int| 0 <= j < po.len() && po[j] == e;
            let (blk, k) = if j < b1.len() {
                (1int, j)
            } else if j < b1.len() + b2.len() {
                (2int, j - b1.len())
            } else if j < b1.len() + b2.len() + b3.len() {
                (3int, j - b1.len() - b2.len())
            } else {
                (4int, j - b1.len() - b2.len() - b3.len())
            };
            let q = |x: ActionEntry| x.status == ActionStatus::Pending && severity_rank(x.severity) == blk;
            assert(pending_of_rank(es, blk)[k] == e);
            assert(pending_of_rank(es, blk).contains(e));
            es.lemma_filter_contains_rev(q, e);
            es.lemma_filter_pred(q, k);
        }
        if es.contains(e) && e.status == ActionStatus::Pending {
            let i = choose|i: int| 0 <= i < es.len() && es[i] == e;
            es.lemma_filter_contains(p, i);
            let f = es.filter(p);
            let k = choose|k: int| 0 <= k < f.len() && f[k] == e;
            if r == 1 {
                assert(po[k] == e);
            } else if r == 2 {
                assert(po[b1.len() + k] == e);
            } else if r == 3 {
                assert(po[b1.len() + b2.len() + k] == e);
            } else {
                assert(po[b1.len() + b2.len() + b3.len() + k] == e);
            }
        }
    }
}

proof fn lemma_filter_keeps_ids_increasing(es: Seq<ActionEntry>, p: spec_fn(ActionEntry) -> bool)
    requires
        ids_increasing(es),
    ensures
        ids_increasing(es.filter(p)),
        forall|k: int| 0 <= k < es.filter(p).len() ==> es.contains(#[trigger] es.filter(p)[k]),
    decreases es.len(),
{
    reveal_with_fuel(Seq::<_>::filter, 1);
    if es.len() > 0 {
        let rest = es.drop_last();
        assert(ids_increasing(rest));
        lemma_filter_keeps_ids_increasing(rest, p);
        let f = es.filter(p);
        let fr = rest.filter(p);
        assert forall|k: int| 0 <= k < f.len() implies es.contains(#[trigger] f[k]) by {
            if k < fr.len() {
                assert(f[k] == fr[k]);
                let m = choose|m: int| 0 <= m < rest.len() && rest[m] == fr[k];
                assert(es[m] == fr[k]);
            } else {
                assert(f[k] == es.last());
                assert(es[es.len() - 1] == f[k]);
            }
        }
        if p(es.last()) {
            assert forall|a: int, b: int| 0 <= a < b < f.len() implies #[trigger] f[a].id < #[trigger] f[b].id by {
                if b == f.len() - 1 {
                    let m = choose|m: int| 0 <= m < rest.len() && rest[m] == fr[a];
                    assert(es[m].id < es[es.len() - 1].id);
                } else {
                    assert(f[a] == fr[a] && f[b] == fr[b]);
                }
            }
            assert forall|a: int| 0 <= a < f.len() implies #[trigger] f[a].id >= 1 by {
                if a < fr.len() {
                    assert(f[a] == fr[a]);
                } else {
                    assert(es[es.len() - 1].id >= 1);
                }
            }
        }
    }
}

/// The pending list runs from the most to the least urgent rank, and by
/// increasing id within a rank.
pub proof fn lemma_pending_sorted(es: Seq<ActionEntry>)
    requires
        ids_increasing(es),
    ensures
        forall|i: int, j: int|
            0 <= i < j < pending_order(es).len() ==> severity_rank(#[trigger] pending_order(es)[i].severity)
                < severity_rank(#[trigger] pending_order(es)[j].severity) || (severity_rank(
                pending_order(es)[i].severity,
            ) == severity_rank(pending_order(es)[j].severity) && pending_order(es)[i].id
                < pending_order(es)[j].id),
{
    broadcast use vstd::seq_lib::group_filter_ensures;
    let b1 = pending_of_rank(es, 1);
    let b2 = pending_of_rank(es, 2);
    let b3 = pending_of_rank(es, 3);
    let b4 = pending_of_rank(es, 4);
    let po = pending_order(es);
    let p1 = |x: ActionEntry| x.status == ActionStatus::Pending && severity_rank(x.severity) == 1;
    let p2 = |x: ActionEntry| x.status == ActionStatus::Pending && severity_rank(x.severity) == 2;
    let p3 = |x: ActionEntry| x.status == ActionStatus::Pending && severity_rank(x.severity) == 3;
    let p4 = |x: ActionEntry| x.status == ActionStatus::Pending && severity_rank(x.severity) == 4;
    lemma_filter_keeps_ids_increasing(es, p1);
    lemma_filter_keeps_ids_increasing(es, p2);
    lemma_filter_keeps_ids_increasing(es, p3);
    lemma_filter_keeps_ids_increasing(es, p4);
    let n1 = b1.len() as int;
    let n2 = n1 + b2.len();
    let n3 = n2 + b3.len();
    assert forall|j: int| 0 <= j < po.len() implies #[trigger] severity_rank(po[j].severity) == (if j < n1 { 1int } else if j < n2 { 2int } else if j < n3 { 3int } else { 4int }) && (if j < n1 { po[j] == b1[j] } else if j < n2 { po[j] == b2[j - n1] } else if j < n3 { po[j] == b3[j - n2] } else { po[j] == b4[j - n3] }) by {
        if j < n1 {
            es.lemma_filter_pred(p1, j);
        } else if j < n2 {
            es.lemma_filter_pred(p2, j - n1);
        } else if j < n3 {
            es.lemma_filter_pred(p3, j - n2);
        } else {
            es.lemma_filter_pred(p4, j - n3);
        }
    }
    assert forall|i: int, j: int| 0 <= i < j < po.len() implies severity_rank(#[trigger] po[i].severity)
        < severity_rank(#[trigger] po[j].severity) || (severity_rank(po[i].severity) == severity_rank(po[j].severity)
        && po[i].id < po[j].id) by {
        assert(severity_rank(po[i].severity) == (if i < n1 { 1int } else if i < n2 { 2int } else if i < n3 { 3int } else { 4int }));
        assert(severity_rank(po[j].severity) == (if j < n1 { 1int } else if j < n2 { 2int } else if j < n3 { 3int } else { 4int }));
        if i < n1 && j < n1 {
            assert(b1[i].id < b1[j].id);
        } else if n1 <= i < n2 && n1 <= j < n2 {
            assert(b2[i - n1].id < b2[j - n1].id);
        } else if n2 <= i < n3 && n2 <= j < n3 {
            assert(b3[i - n2].id < b3[j - n2].id);
        } else if n3 <= i && n3 <= j {
            assert(b4[i - n3].id < b4[j - n3].id);
        }
    }
}

} // verus!
