//! The watched identifiers and the breaches already seen for each.
use vstd::prelude::*;
use crate::text::{chars_of, str_eq};
use super::LeakDb;

verus! {

/// `a` sorts before `b` in code-point order (as SQLite's binary collation
/// orders text): at the first difference the smaller character, else the
/// shorter text first.
pub open spec fn text_lt(a: Seq<char>, b: Seq<char>) -> bool
    decreases a.len(),
{
    if a.len() == 0 {
        b.len() > 0
    } else if b.len() == 0 {
        false
    } else if a[0] != b[0] {
        (a[0] as int) < (b[0] as int)
    } else {
        text_lt(a.drop_first(), b.drop_first())
    }
}

/// No text sorts before itself.
pub proof fn lemma_text_lt_irreflexive(a: Seq<char>)
    ensures
        !text_lt(a, a),
    decreases a.len(),
{
    if a.len() > 0 {
        lemma_text_lt_irreflexive(a.drop_first());
    }
}

/// Text order is transitive.
pub proof fn lemma_text_lt_transitive(a: Seq<char>, b: Seq<char>, c: Seq<char>)
    requires
        text_lt(a, b),
        text_lt(b, c),
    ensures
        text_lt(a, c),
    decreases a.len(),
{
    if a.len() > 0 && b.len() > 0 && c.len() > 0 && a[0] == b[0] && b[0] == c[0] {
        lemma_text_lt_transitive(a.drop_first(), b.drop_first(), c.drop_first());
    }
}

/// Compares two texts in code-point order.
pub fn text_less(a: &str, b: &str) -> (r: bool)
    ensures
        r == text_lt(a@, b@),
{
    let ac = chars_of(a);
    let bc = chars_of(b);
    let mut i: usize = 0;
    assert(ac@.skip(0) =~= ac@);
    assert(bc@.skip(0) =~= bc@);
    while i < ac.len() && i < bc.len()
        invariant
            i <= ac@.len(),
            i <= bc@.len(),
            ac@ == a@,
            bc@ == b@,
            text_lt(ac@, bc@) == text_lt(ac@.skip(i as int), bc@.skip(i as int)),
        decreases ac.len() - i,
    {
        assert(ac@.skip(i as int).drop_first() =~= ac@.skip(i + 1));
        assert(bc@.skip(i as int).drop_first() =~= bc@.skip(i + 1));
        assert(ac@.skip(i as int)[0] == ac@[i as int]);
        assert(bc@.skip(i as int)[0] == bc@[i as int]);
        if ac[i] != bc[i] {
            let r = ac[i] < bc[i];
            assert(r == ((ac@[i as int] as int) < (bc@[i as int] as int)));
            assert(ac@.skip(i as int).len() > 0 && bc@.skip(i as int).len() > 0);
            assert(text_lt(ac@.skip(i as int), bc@.skip(i as int)) == ((ac@[i as int] as int) < (bc@[i as int] as int)));
            return r;
        }
        i += 1;
    }
    i < bc.len()
}

/// One watched identifier.
#[derive(Debug)]
pub struct WatchEntry {
    pub id: i64,
    pub identifier: String,
    pub added_at: String,
}

/// A watched identifier as plain values.
pub struct WatchView {
    pub id: int,
    pub identifier: Seq<char>,
    pub added_at: Seq<char>,
}

impl View for WatchEntry {
    type V = WatchView;

    open spec fn view(&self) -> WatchView {
        WatchView { id: self.id as int, identifier: self.identifier@, added_at: self.added_at@ }
    }
}

/// The views of a list of watched identifiers.
pub open spec fn watch_views(v: Seq<WatchEntry>) -> Seq<WatchView> {
    v.map_values(|e: WatchEntry| e@)
}

/// The list is ordered by the time each identifier was added.
pub open spec fn ordered_by_added(ws: Seq<WatchView>) -> bool {
    forall|i: int, j: int| 0 <= i < j < ws.len() ==> !text_lt(#[trigger] ws[j].added_at, #[trigger] ws[i].added_at)
}

/// No identifier is watched twice.
pub open spec fn identifiers_unique(ws: Seq<WatchView>) -> bool {
    forall|i: int, j: int| 0 <= i < j < ws.len() ==> #[trigger] ws[i].identifier != #[trigger] ws[j].identifier
}

/// The identifier is watched.
pub open spec fn is_watched(ws: Seq<WatchView>, identifier: Seq<char>) -> bool {
    exists|i: int| 0 <= i < ws.len() && #[trigger] ws[i].identifier == identifier
}

/// `k` is where an entry added at `t` goes: after every entry not added later.
pub open spec fn insert_position(ws: Seq<WatchView>, t: Seq<char>, k: int) -> bool {
    &&& 0 <= k <= ws.len()
    &&& forall|i: int| 0 <= i < k ==> !text_lt(t, #[trigger] ws[i].added_at)
    &&& forall|i: int| k <= i < ws.len() ==> text_lt(t, #[trigger] ws[i].added_at)
}

/// The watchlist: identifiers unique, ordered by when they were added, ids
/// positive and at most the largest id ever given out.
pub struct Watchlist {
    entries: Vec<WatchEntry>,
    last_id: i64,
}

impl View for Watchlist {
    type V = Seq<WatchView>;

    closed spec fn view(&self) -> Seq<WatchView> {
        watch_views(self.entries@)
    }
}

impl Watchlist {
    /// The largest id given out so far (new entries get the next one).
    pub closed spec fn last_id(&self) -> int {
        self.last_id as int
    }

    #[verifier::type_invariant]
    closed spec fn well_formed(self) -> bool {
        &&& ordered_by_added(self@)
        &&& identifiers_unique(self@)
        &&& self.last_id >= 0
        &&& forall|i: int| 0 <= i < self@.len() ==> 1 <= #[trigger] self@[i].id <= self.last_id
    }

    /// An empty watchlist.
    pub fn new() -> (r: Watchlist)
        ensures
            r@ == Seq::<WatchView>::empty(),
            r.last_id() == 0,
    {
        let r = Watchlist { entries: Vec::new(), last_id: 0 };
        assert(r@ =~= Seq::<WatchView>::empty());
        r
    }

    /// The position of `identifier`, if watched.
    fn position(&self, identifier: &str) -> (r: Option<usize>)
        ensures
            match r {
                Some(i) => i < self@.len() && self@[i as int].identifier == identifier@,
                None => !is_watched(self@, identifier@),
            },
    {
        let mut i: usize = 0;
        while i < self.entries.len()
            invariant
                i <= self@.len(),
                self@.len() == self.entries@.len(),
                forall|k: int| 0 <= k < i ==> self@[k].identifier != identifier@,
            decreases self.entries.len() - i,
        {
            assert(self@[i as int] == self.entries@[i as int]@);
            if str_eq(self.entries[i].identifier.as_str(), identifier) {
                return Some(i);
            }
            i += 1;
        }
        None
    }

    /// Where an entry added at `added_at` goes.
    fn find_insert_position(&self, added_at: &str) -> (k: usize)
        ensures
            insert_position(self@, added_at@, k as int),
    {
        proof {
            use_type_invariant(self);
        }
        let mut i: usize = 0;
        while i < self.entries.len()
            invariant
                i <= self@.len(),
                self@.len() == self.entries@.len(),
                ordered_by_added(self@),
                forall|k: int| 0 <= k < i ==> !text_lt(added_at@, #[trigger] self@[k].added_at),
            decreases self.entries.len() - i,
        {
            assert(self@[i as int] == self.entries@[i as int]@);
            if text_less(added_at, self.entries[i].added_at.as_str()) {
                proof {
                    assert forall|j: int| i <= j < self@.len() implies text_lt(added_at@, #[trigger] self@[j].added_at) by {
                        if j > i {
                            assert(!text_lt(self@[j].added_at, self@[i as int].added_at));
                            if !text_lt(added_at@, self@[j].added_at) {
                                // added_at >= self[j] and added_at < self[i] would give self[j] < self[i]
                                lemma_text_lt_total(added_at@, self@[j].added_at);
                                if added_at@ == self@[j].added_at {
                                } else {
                                    lemma_text_lt_transitive(self@[j].added_at, added_at@, self@[i as int].added_at);
                                }
                            }
                        }
                    }
                }
                return i;
            }
            i += 1;
        }
        i
    }

    /// Adds a watched identifier with the time it was added; returns `Ok(false)`
    /// (and changes nothing) when it is watched already.
    pub fn add(&mut self, identifier: &str, added_at: &str) -> (r: Result<bool, WatchlistError>)
        ensures
            match r {
                Ok(true) => !is_watched(old(self)@, identifier@) && final(self).last_id() == old(self).last_id() + 1
                    && exists|k: int| #[trigger] insert_position(old(self)@, added_at@, k) && final(self)@ == old(self)@.insert(
                    k,
                    WatchView { id: old(self).last_id() + 1, identifier: identifier@, added_at: added_at@ },
                ),
                Ok(false) => is_watched(old(self)@, identifier@) && final(self)@ == old(self)@ && final(self).last_id() == old(self).last_id(),
                Err(WatchlistError::IdsExhausted) => !is_watched(old(self)@, identifier@) && old(self).last_id() == i64::MAX
                    && final(self)@ == old(self)@ && final(self).last_id() == old(self).last_id(),
            },
    {
        proof {
            use_type_invariant(&*self);
        }
        if self.position(identifier).is_some() {
            return Ok(false);
        }
        if self.last_id == i64::MAX {
            return Err(WatchlistError::IdsExhausted);
        }
        let k = self.find_insert_position(added_at);
        let id = self.last_id + 1;
        let ghost before = self@;
        let entry = WatchEntry { id, identifier: String::from_str(identifier), added_at: String::from_str(added_at) };
        let ghost ev = entry@;
        let mut entries: Vec<WatchEntry> = Vec::new();
        std::mem::swap(&mut entries, &mut self.entries);
        entries.insert(k, entry);
        proof {
            let after = watch_views(entries@);
            assert(after =~= before.insert(k as int, ev));
            assert(ordered_by_added(after)) by {
                assert forall|i: int, j: int| 0 <= i < j < after.len() implies !text_lt(#[trigger] after[j].added_at, #[trigger] after[i].added_at) by {
                    if i == k {
                        assert(text_lt(added_at@, before[j - 1].added_at));
                        if text_lt(before[j - 1].added_at, added_at@) {
                            lemma_text_lt_transitive(added_at@, before[j - 1].added_at, added_at@);
                            lemma_text_lt_irreflexive(added_at@);
                        }
                    } else if j == k {
                        assert(!text_lt(added_at@, before[i].added_at));
                    } else {
                        let i0 = if i < k { i } else { i - 1 };
                        let j0 = if j < k { j } else { j - 1 };
                        assert(after[i] == before[i0] && after[j] == before[j0]);
                    }
                }
            }
            assert(identifiers_unique(after)) by {
                assert forall|i: int, j: int| 0 <= i < j < after.len() implies #[trigger] after[i].identifier != #[trigger] after[j].identifier by {
                    if i == k {
                        assert(before[j - 1].identifier != identifier@);
                    } else if j == k {
                        assert(before[i].identifier != identifier@);
                    } else {
                        let i0 = if i < k { i } else { i - 1 };
                        let j0 = if j < k { j } else { j - 1 };
                        assert(after[i] == before[i0] && after[j] == before[j0]);
                    }
                }
            }
            assert forall|i: int| 0 <= i < after.len() implies 1 <= #[trigger] after[i].id <= id by {
                if i < k {
                    assert(after[i] == before[i]);
                } else if i > k {
                    assert(after[i] == before[i - 1]);
                }
            }
        }
        *self = Watchlist { entries, last_id: id };
        Ok(true)
    }
    /// Stops watching `identifier`; returns whether it was watched.
    pub fn remove(&mut self, identifier: &str) -> (removed: bool)
        ensures
            removed == is_watched(old(self)@, identifier@),
            removed ==> exists|i: int| 0 <= i < old(self)@.len() && #[trigger] old(self)@[i].identifier == identifier@
                && final(self)@ == old(self)@.remove(i),
            !removed ==> final(self)@ == old(self)@,
            final(self).last_id() == old(self).last_id(),
    {
        proof {
            use_type_invariant(&*self);
        }
        match self.position(identifier) {
            None => false,
            Some(i) => {
                let ghost before = self@;
                let mut entries: Vec<WatchEntry> = Vec::new();
                std::mem::swap(&mut entries, &mut self.entries);
                let _gone = entries.remove(i);
                proof {
                    let after = watch_views(entries@);
                    assert(after =~= before.remove(i as int));
                    assert forall|a: int, b: int| 0 <= a < b < after.len() implies !text_lt(#[trigger] after[b].added_at, #[trigger] after[a].added_at) by {
                        let a0 = if a < i { a } else { a + 1 };
                        let b0 = if b < i { b } else { b + 1 };
                        assert(after[a] == before[a0] && after[b] == before[b0]);
                    }
                    assert forall|a: int, b: int| 0 <= a < b < after.len() implies #[trigger] after[a].identifier != #[trigger] after[b].identifier by {
                        let a0 = if a < i { a } else { a + 1 };
                        let b0 = if b < i { b } else { b + 1 };
                        assert(after[a] == before[a0] && after[b] == before[b0]);
                    }
                    assert forall|a: int| 0 <= a < after.len() implies 1 <= #[trigger] after[a].id <= self.last_id by {
                        let a0 = if a < i { a } else { a + 1 };
                        assert(after[a] == before[a0]);
                    }
                }
                self.entries = entries;
                true
            },
        }
    }

    /// Appends an entry read back from the table (which gives them in the
    /// order they were added); refused, and nothing changed, when its id is not
    /// positive, its identifier is watched already, or it was added before the
    /// last entry held.
    pub fn load(&mut self, entry: WatchEntry) -> (accepted: bool)
        ensures
            accepted == (entry.id >= 1 && !is_watched(old(self)@, entry.identifier@) && (old(self)@.len() == 0
                || !text_lt(entry.added_at@, old(self)@.last().added_at))),
            final(self)@ == if accepted { old(self)@.push(entry@) } else { old(self)@ },
            final(self).last_id() == if accepted && entry.id > old(self).last_id() { entry.id as int } else { old(self).last_id() },
    {
        proof {
            use_type_invariant(&*self);
        }
        if entry.id < 1 || self.position(entry.identifier.as_str()).is_some() {
            return false;
        }
        let n = self.entries.len();
        if n > 0 && text_less(entry.added_at.as_str(), self.entries[n - 1].added_at.as_str()) {
            return false;
        }
        let ghost before = self@;
        let ghost ev = entry@;
        let new_last = if entry.id > self.last_id { entry.id } else { self.last_id };
        let mut entries: Vec<WatchEntry> = Vec::new();
        std::mem::swap(&mut entries, &mut self.entries);
        entries.push(entry);
        proof {
            let after = watch_views(entries@);
            assert(after =~= before.push(ev));
            assert forall|a: int, b: int| 0 <= a < b < after.len() implies !text_lt(#[trigger] after[b].added_at, #[trigger] after[a].added_at) by {
                if b == before.len() && a < before.len() - 1 {
                    assert(!text_lt(before[before.len() - 1].added_at, before[a].added_at));
                    if text_lt(ev.added_at, before[a].added_at) {
                        lemma_text_lt_total(ev.added_at, before[before.len() - 1].added_at);
                        if ev.added_at != before[before.len() - 1].added_at {
                            lemma_text_lt_transitive(before[before.len() - 1].added_at, ev.added_at, before[a].added_at);
                        }
                    }
                }
            }
            assert forall|a: int, b: int| 0 <= a < b < after.len() implies #[trigger] after[a].identifier != #[trigger] after[b].identifier by {
                if b == before.len() {
                    assert(before[a].identifier != ev.identifier);
                }
            }
        }
        *self = Watchlist { entries, last_id: new_last };
        true
    }

    /// Raises the largest id given out so far to `seen` (ids are never given
    /// out twice, even after removals).
    pub fn note_last_id(&mut self, seen: i64)
        ensures
            final(self)@ == old(self)@,
            final(self).last_id() == if seen > old(self).last_id() { seen as int } else { old(self).last_id() },
    {
        proof {
            use_type_invariant(&*self);
        }
        if seen > self.last_id {
            let mut entries: Vec<WatchEntry> = Vec::new();
            std::mem::swap(&mut entries, &mut self.entries);
            *self = Watchlist { entries, last_id: seen };
        }
    }

    /// The watched identifiers as (id, identifier, added at), in the order
    /// they were added.
    pub fn list(&self) -> (r: Vec<(i64, String, String)>)
        ensures
            r@.len() == self@.len(),
            forall|i: int| 0 <= i < r@.len() ==> (#[trigger] r@[i]).0 as int == self@[i].id && r@[i].1@ == self@[i].identifier
                && r@[i].2@ == self@[i].added_at,
            ordered_by_added(self@),
            identifiers_unique(self@),
    {
        proof {
            use_type_invariant(self);
        }
        let mut r: Vec<(i64, String, String)> = Vec::new();
        let mut i: usize = 0;
        while i < self.entries.len()
            invariant
                i <= self@.len(),
                self@.len() == self.entries@.len(),
                r@.len() == i,
                forall|k: int| 0 <= k < i ==> (#[trigger] r@[k]).0 as int == self@[k].id && r@[k].1@ == self@[k].identifier
                    && r@[k].2@ == self@[k].added_at,
            decreases self.entries.len() - i,
        {
            let e = &self.entries[i];
            assert(self@[i as int] == e@);
            r.push((e.id, e.identifier.clone(), e.added_at.clone()));
            i += 1;
        }
        r
    }
}

/// Why an identifier could not be added.
#[derive(Debug, Clone, Copy, PartialEq, Eq, Structural)]
pub enum WatchlistError {
    /// The next id would exceed the largest 64-bit id.
    IdsExhausted,
}

/// Of two different texts, one sorts before the other.
pub proof fn lemma_text_lt_total(a: Seq<char>, b: Seq<char>)
    ensures
        text_lt(a, b) || text_lt(b, a) || a == b,
    decreases a.len(),
{
    if a.len() > 0 && b.len() > 0 {
        if a[0] == b[0] {
            lemma_text_lt_total(a.drop_first(), b.drop_first());
            if a.drop_first() == b.drop_first() {
                assert(a =~= seq![a[0]] + a.drop_first());
                assert(b =~= seq![b[0]] + b.drop_first());
            }
        } else {
            assert((a[0] as int) != (b[0] as int));
        }
    } else if a.len() == 0 && b.len() == 0 {
        assert(a =~= b);
    }
}

/// A breach already reported for an identifier.
#[derive(Debug)]
pub struct SeenBreach {
    pub identifier: String,
    pub breach_name: String,
}

/// The (identifier, breach name) pairs already reported; none twice.
pub struct SeenBreaches {
    pairs: Vec<SeenBreach>,
}

/// The views of a list of seen pairs.
pub open spec fn pair_views(v: Seq<SeenBreach>) -> Seq<(Seq<char>, Seq<char>)> {
    v.map_values(|p: SeenBreach| (p.identifier@, p.breach_name@))
}

/// The number of breaches seen for `identifier`.
pub open spec fn seen_count(ps: Seq<(Seq<char>, Seq<char>)>, identifier: Seq<char>) -> nat {
    ps.filter(|p: (Seq<char>, Seq<char>)| p.0 == identifier).len()
}

impl View for SeenBreaches {
    type V = Seq<(Seq<char>, Seq<char>)>;

    closed spec fn view(&self) -> Seq<(Seq<char>, Seq<char>)> {
        pair_views(self.pairs@)
    }
}

impl SeenBreaches {
    #[verifier::type_invariant]
    closed spec fn well_formed(self) -> bool {
        self@.no_duplicates()
    }

    /// No breach has been seen yet.
    pub fn new() -> (r: SeenBreaches)
        ensures
            r@ == Seq::<(Seq<char>, Seq<char>)>::empty(),
    {
        let r = SeenBreaches { pairs: Vec::new() };
        assert(r@ =~= Seq::<(Seq<char>, Seq<char>)>::empty());
        r
    }

    /// Whether `breach_name` has been seen for `identifier`.
    pub fn contains(&self, identifier: &str, breach_name: &str) -> (r: bool)
        ensures
            r == self@.contains((identifier@, breach_name@)),
    {
        let mut i: usize = 0;
        while i < self.pairs.len()
            invariant
                i <= self@.len(),
                self@.len() == self.pairs@.len(),
                forall|k: int| 0 <= k < i ==> self@[k] != (identifier@, breach_name@),
            decreases self.pairs.len() - i,
        {
            let p = &self.pairs[i];
            assert(self@[i as int] == (p.identifier@, p.breach_name@));
            if str_eq(p.identifier.as_str(), identifier) && str_eq(p.breach_name.as_str(), breach_name) {
                return true;
            }
            i += 1;
        }
        false
    }

    /// Records `breach_name` as seen for `identifier` (nothing changes when it
    /// was seen already).
    pub fn insert(&mut self, identifier: &str, breach_name: &str)
        ensures
            final(self)@ == if old(self)@.contains((identifier@, breach_name@)) {
                old(self)@
            } else {
                old(self)@.push((identifier@, breach_name@))
            },
    {
        proof {
            use_type_invariant(&*self);
        }
        if self.contains(identifier, breach_name) {
            return;
        }
        let ghost before = self@;
        let mut pairs: Vec<SeenBreach> = Vec::new();
        std::mem::swap(&mut pairs, &mut self.pairs);
        pairs.push(SeenBreach { identifier: String::from_str(identifier), breach_name: String::from_str(breach_name) });
        proof {
            assert(pair_views(pairs@) =~= before.push((identifier@, breach_name@)));
        }
        self.pairs = pairs;
    }

    /// Every seen pair, in the order recorded.
    pub fn pairs(&self) -> (r: &Vec<SeenBreach>)
        ensures
            pair_views(r@) == self@,
    {
        &self.pairs
    }

    /// The number of breaches seen for `identifier`.
    pub fn count(&self, identifier: &str) -> (r: usize)
        ensures
            r == seen_count(self@, identifier@),
    {
        let ghost pred = |p: (Seq<char>, Seq<char>)| p.0 == identifier@;
        let mut n: usize = 0;
        let mut i: usize = 0;
        while i < self.pairs.len()
            invariant
                i <= self@.len(),
                self@.len() == self.pairs@.len(),
                pred == (|p: (Seq<char>, Seq<char>)| p.0 == identifier@),
                n == self@.take(i as int).filter(pred).len(),
                n <= i,
            decreases self.pairs.len() - i,
        {
            assert(self@[i as int] == (self.pairs@[i as int].identifier@, self.pairs@[i as int].breach_name@));
            proof {
                reveal_with_fuel(Seq::<_>::filter, 1);
                assert(self@.take(i + 1).drop_last() =~= self@.take(i as int));
            }
            if str_eq(self.pairs[i].identifier.as_str(), identifier) {
                n += 1;
            }
            i += 1;
        }
        assert(self@.take(self@.len() as int) =~= self@);
        n
    }
}

/// Adds `identifier` to the watchlist, added at `added_at`; `Ok(false)` when it
/// is watched already.
pub fn add_watch(db: &mut LeakDb, identifier: &str, added_at: &str) -> (r: Result<bool, WatchlistError>)
    ensures
        final(db).seen_breaches@ == old(db).seen_breaches@,
        final(db).actions@ == old(db).actions@,
        match r {
            Ok(true) => !is_watched(old(db).watchlist@, identifier@) && final(db).watchlist.last_id()
                == old(db).watchlist.last_id() + 1 && exists|k: int| #[trigger] insert_position(
                old(db).watchlist@,
                added_at@,
                k,
            ) && final(db).watchlist@ == old(db).watchlist@.insert(
                k,
                WatchView { id: old(db).watchlist.last_id() + 1, identifier: identifier@, added_at: added_at@ },
            ),
            Ok(false) => is_watched(old(db).watchlist@, identifier@) && final(db).watchlist@ == old(db).watchlist@
                && final(db).watchlist.last_id() == old(db).watchlist.last_id(),
            Err(WatchlistError::IdsExhausted) => !is_watched(old(db).watchlist@, identifier@)
                && old(db).watchlist.last_id() == i64::MAX && final(db).watchlist@ == old(db).watchlist@,
        },
{
    db.watchlist.add(identifier, added_at)
}

/// Removes `identifier` from the watchlist; returns whether it was watched.
pub fn remove_watch(db: &mut LeakDb, identifier: &str) -> (removed: bool)
    ensures
        final(db).seen_breaches@ == old(db).seen_breaches@,
        final(db).actions@ == old(db).actions@,
        removed == is_watched(old(db).watchlist@, identifier@),
        removed ==> exists|i: int| 0 <= i < old(db).watchlist@.len() && #[trigger] old(db).watchlist@[i].identifier
            == identifier@ && final(db).watchlist@ == old(db).watchlist@.remove(i),
        !removed ==> final(db).watchlist@ == old(db).watchlist@,
{
    db.watchlist.remove(identifier)
}

/// The watched identifiers as (id, identifier, added at), in the order they
/// were added.
pub fn get_watchlist(db: &LeakDb) -> (r: Vec<(i64, String, String)>)
    ensures
        r@.len() == db.watchlist@.len(),
        forall|i: int| 0 <= i < r@.len() ==> (#[trigger] r@[i]).0 as int == db.watchlist@[i].id && r@[i].1@
            == db.watchlist@[i].identifier && r@[i].2@ == db.watchlist@[i].added_at,
        ordered_by_added(db.watchlist@),
        identifiers_unique(db.watchlist@),
{
    db.watchlist.list()
}

/// Whether `breach_name` was already reported for `identifier`.
pub fn is_known_breach(db: &LeakDb, identifier: &str, breach_name: &str) -> (r: bool)
    ensures
        r == db.seen_breaches@.contains((identifier@, breach_name@)),
{
    db.seen_breaches.contains(identifier, breach_name)
}

/// Records `breach_name` as reported for `identifier`.
pub fn record_breach_seen(db: &mut LeakDb, identifier: &str, breach_name: &str)
    ensures
        final(db).watchlist@ == old(db).watchlist@,
        final(db).watchlist.last_id() == old(db).watchlist.last_id(),
        final(db).actions@ == old(db).actions@,
        final(db).seen_breaches@ == if old(db).seen_breaches@.contains((identifier@, breach_name@)) {
            old(db).seen_breaches@
        } else {
            old(db).seen_breaches@.push((identifier@, breach_name@))
        },
{
    db.seen_breaches.insert(identifier, breach_name)
}

/// The number of breaches reported for `identifier`.
pub fn breach_count(db: &LeakDb, identifier: &str) -> (r: usize)
    ensures
        r == seen_count(db.seen_breaches@, identifier@),
{
    db.seen_breaches.count(identifier)
}

/// Stopping to watch an identifier right after it was added gives back the
/// watchlist as it was: the entry that adding put in at `k` is the one removal
/// takes out.
pub proof fn lemma_unwatch_undoes_watch(ws: Seq<WatchView>, k: int, w: WatchView, i: int)
    requires
        identifiers_unique(ws),
        !is_watched(ws, w.identifier),
        0 <= k <= ws.len(),
        0 <= i < ws.len() + 1,
        ws.insert(k, w)[i].identifier == w.identifier,
    ensures
        ws.insert(k, w).remove(i) == ws,
{
    let after = ws.insert(k, w);
    if i < k {
        assert(after[i] == ws[i]);
    } else if i > k {
        assert(after[i] == ws[i - 1]);
    }
    assert(i == k);
    assert(after.remove(i) =~= ws);
}

/// Recording a breach makes it known for the identifier; a breach not seen
/// before adds one to the identifier's count and to no other identifier's.
pub proof fn lemma_record_breach(ps: Seq<(Seq<char>, Seq<char>)>, identifier: Seq<char>, breach_name: Seq<char>, other: Seq<char>)
    requires
        other != identifier,
    ensures
        ({
            let after = if ps.contains((identifier, breach_name)) { ps } else { ps.push((identifier, breach_name)) };
            &&& after.contains((identifier, breach_name))
            &&& seen_count(after, identifier) == seen_count(ps, identifier) + if ps.contains((identifier, breach_name)) { 0int } else { 1int }
            &&& seen_count(after, other) == seen_count(ps, other)
        }),
{
    if !ps.contains((identifier, breach_name)) {
        let after = ps.push((identifier, breach_name));
        assert(after[ps.len() as int] == (identifier, breach_name));
        reveal_with_fuel(Seq::<_>::filter, 1);
        assert(after.drop_last() =~= ps);
    }
}

} // verus!
