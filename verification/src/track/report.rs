//! Tallies of a tracker scan: which trackers were found, grouped by company
//! and counted by category.
use vstd::prelude::*;
use crate::text::str_eq;
use super::tracker_db::{lookup_domain, lookup_lowered, TrackerCategory, TrackerDb, TrackerInfo};
use crate::text::lowercase;

verus! {

/// Every tracker found, in the order found, as (domain, what is known of it).
pub struct CompanyTrackers {
    entries: Vec<(String, TrackerInfo)>,
}

/// The views of tracker findings.
pub open spec fn findings_view(v: Seq<(String, TrackerInfo)>) -> Seq<(Seq<char>, TrackerInfo)> {
    v.map_values(|e: (String, TrackerInfo)| (e.0@, e.1))
}

/// The findings of one company, in the order found.
pub open spec fn trackers_of_company(es: Seq<(Seq<char>, TrackerInfo)>, company: Seq<char>) -> Seq<(Seq<char>, TrackerInfo)> {
    es.filter(|e: (Seq<char>, TrackerInfo)| e.1.company@ == company)
}

/// `company` is listed in `r`.
pub open spec fn company_listed(r: Seq<(&'static str, usize)>, company: Seq<char>) -> bool {
    exists|i: int| 0 <= i < r.len() && #[trigger] r[i].0@ == company
}

/// The findings of one category.
pub open spec fn findings_of_category(es: Seq<(Seq<char>, TrackerInfo)>, c: TrackerCategory) -> Seq<(Seq<char>, TrackerInfo)> {
    es.filter(|e: (Seq<char>, TrackerInfo)| e.1.category == c)
}

impl View for CompanyTrackers {
    type V = Seq<(Seq<char>, TrackerInfo)>;

    closed spec fn view(&self) -> Seq<(Seq<char>, TrackerInfo)> {
        findings_view(self.entries@)
    }
}

impl CompanyTrackers {
    /// No findings.
    pub fn new() -> (r: CompanyTrackers)
        ensures
            r@ == Seq::<(Seq<char>, TrackerInfo)>::empty(),
    {
        let r = CompanyTrackers { entries: Vec::new() };
        assert(r@ =~= Seq::<(Seq<char>, TrackerInfo)>::empty());
        r
    }

    /// The findings of `company`, in the order found.
    pub fn trackers_of(&self, company: &str) -> (r: Vec<(String, TrackerInfo)>)
        ensures
            findings_view(r@) == trackers_of_company(self@, company@),
    {
        let ghost pred = |e: (Seq<char>, TrackerInfo)| e.1.company@ == company@;
        let mut r: Vec<(String, TrackerInfo)> = Vec::new();
        let mut i: usize = 0;
        while i < self.entries.len()
            invariant
                i <= self@.len(),
                self@.len() == self.entries@.len(),
                pred == (|e: (Seq<char>, TrackerInfo)| e.1.company@ == company@),
                findings_view(r@) == self@.take(i as int).filter(pred),
            decreases self.entries.len() - i,
        {
            let e = &self.entries[i];
            assert(self@[i as int] == (e.0@, e.1));
            proof {
                reveal_with_fuel(Seq::<_>::filter, 1);
                assert(self@.take(i + 1).drop_last() =~= self@.take(i as int));
            }
            if str_eq(e.1.company, company) {
                let ghost before = r@;
                r.push((e.0.clone(), e.1));
                assert(findings_view(r@) =~= findings_view(before).push((e.0@, e.1)));
            }
            assert(findings_view(r@) =~= self@.take(i + 1).filter(pred));
            i += 1;
        }
        assert(self@.take(self@.len() as int) =~= self@);
        r
    }

    /// The companies found, each once, in the order first found, with the
    /// number of their findings.
    pub fn companies(&self) -> (r: Vec<(&'static str, usize)>)
        ensures
            r@.map_values(|p: (&'static str, usize)| p.0@) == companies_in_order(self@),
            forall|i: int| 0 <= i < r@.len() ==> (#[trigger] r@[i]).1 == trackers_of_company(self@, r@[i].0@).len(),
            forall|i: int| 0 <= i < r@.len() ==> (#[trigger] r@[i]).1 >= 1,
            forall|i: int, j: int| 0 <= i < j < r@.len() ==> (#[trigger] r@[i]).0@ != (#[trigger] r@[j]).0@,
            forall|k: int| 0 <= k < self@.len() ==> company_listed(r@, (#[trigger] self@[k]).1.company@),
    {
        let mut r: Vec<(&'static str, usize)> = Vec::new();
        let mut i: usize = 0;
        assert(self@.take(0) =~= Seq::<(Seq<char>, TrackerInfo)>::empty());
        assert(r@.map_values(|p: (&'static str, usize)| p.0@) =~= Seq::<Seq<char>>::empty());
        while i < self.entries.len()
            invariant
                i <= self@.len(),
                self@.len() == self.entries@.len(),
                r@.map_values(|p: (&'static str, usize)| p.0@) == companies_in_order(self@.take(i as int)),
                forall|a: int| 0 <= a < r@.len() ==> (#[trigger] r@[a]).1 == trackers_of_company(self@, r@[a].0@).len(),
                forall|a: int, b: int| 0 <= a < b < r@.len() ==> (#[trigger] r@[a]).0@ != (#[trigger] r@[b]).0@,
                forall|k: int| 0 <= k < i ==> company_listed(r@, (#[trigger] self@[k]).1.company@),
            decreases self.entries.len() - i,
        {
            let company = self.entries[i].1.company;
            assert(self@[i as int].1.company == company);
            assert(self@.take(i + 1).drop_last() =~= self@.take(i as int));
            assert(self@.take(i + 1).last() == self@[i as int]);
            let ghost names = r@.map_values(|p: (&'static str, usize)| p.0@);
            let pos = company_position(&r, company);
            if pos.is_none() {
                assert(!names.contains(company@)) by {
                    if names.contains(company@) {
                        let b = choose|b: int| 0 <= b < names.len() && names[b] == company@;
                        assert(r@[b].0@ == company@);
                    }
                }
                let n = self.trackers_of(company).len();
                let ghost before = r@;
                r.push((company, n));
                proof {
                    assert(r@.map_values(|p: (&'static str, usize)| p.0@) =~= names.push(company@));
                    assert forall|x: int, y: int| 0 <= x < y < r@.len() implies (#[trigger] r@[x]).0@ != (#[trigger] r@[y]).0@ by {
                        if y == r@.len() - 1 {
                            assert(before[x].0@ != company@);
                        } else {
                            assert(r@[x] == before[x] && r@[y] == before[y]);
                        }
                    }
                    assert forall|k: int| 0 <= k < i + 1 implies company_listed(r@, (#[trigger] self@[k]).1.company@) by {
                        if k == i {
                            assert(r@[r@.len() - 1].0@ == self@[k].1.company@);
                            assert(company_listed(r@, self@[k].1.company@));
                        } else {
                            let b = choose|b: int| 0 <= b < before.len() && #[trigger] before[b].0@ == self@[k].1.company@;
                            assert(r@[b] == before[b]);
                            assert(r@[b].0@ == self@[k].1.company@);
                        }
                    }
                }
            } else {
                let a = pos.unwrap();
                assert(r@[a as int].0@ == self@[i as int].1.company@);
                assert(names[a as int] == company@);
                assert(company_listed(r@, self@[i as int].1.company@));
            }
            i += 1;
        }
        assert(self@.take(self@.len() as int) =~= self@);
        proof {
            lemma_companies_found(self@);
            assert forall|a: int| 0 <= a < r@.len() implies (#[trigger] r@[a]).1 >= 1 by {
                let names = r@.map_values(|p: (&'static str, usize)| p.0@);
                assert(names[a] == r@[a].0@);
                let k = choose|k: int| 0 <= k < self@.len() && self@[k].1.company@ == companies_in_order(self@)[a];
                let pred = |e: (Seq<char>, TrackerInfo)| e.1.company@ == r@[a].0@;
                self@.lemma_filter_contains(pred, k);
            }
        }
        r
    }
}

/// The companies of the findings, each once, in the order first found.
pub open spec fn companies_in_order(es: Seq<(Seq<char>, TrackerInfo)>) -> Seq<Seq<char>>
    decreases es.len(),
{
    if es.len() == 0 {
        seq![]
    } else {
        let prev = companies_in_order(es.drop_last());
        let c = es.last().1.company@;
        if prev.contains(c) {
            prev
        } else {
            prev.push(c)
        }
    }
}

/// Every listed company has a finding, every finding's company is listed, and
/// none is listed twice.
pub proof fn lemma_companies_found(es: Seq<(Seq<char>, TrackerInfo)>)
    ensures
        forall|j: int| 0 <= j < companies_in_order(es).len() ==> exists|k: int|
            0 <= k < es.len() && es[k].1.company@ == #[trigger] companies_in_order(es)[j],
        forall|k: int| 0 <= k < es.len() ==> companies_in_order(es).contains(#[trigger] es[k].1.company@),
        companies_in_order(es).no_duplicates(),
    decreases es.len(),
{
    if es.len() > 0 {
        let rest = es.drop_last();
        lemma_companies_found(rest);
        let prev = companies_in_order(rest);
        let c = es.last().1.company@;
        let cur = companies_in_order(es);
        assert forall|j: int| 0 <= j < cur.len() implies exists|k: int| 0 <= k < es.len() && es[k].1.company@ == #[trigger] cur[j] by {
            if j < prev.len() {
                let k = choose|k: int| 0 <= k < rest.len() && rest[k].1.company@ == prev[j];
                assert(es[k] == rest[k]);
            } else {
                assert(es[es.len() - 1].1.company@ == cur[j]);
            }
        }
        assert forall|k: int| 0 <= k < es.len() implies cur.contains(#[trigger] es[k].1.company@) by {
            if k < es.len() - 1 {
                assert(es[k] == rest[k]);
                assert(prev.contains(rest[k].1.company@));
                if !prev.contains(c) {
                    let q = choose|q: int| 0 <= q < prev.len() && prev[q] == rest[k].1.company@;
                    assert(cur[q] == prev[q]);
                }
            } else if !prev.contains(c) {
                assert(cur[prev.len() as int] == c);
            }
        }
    }
}

/// The sum of the finding counts of companies `cs`.
pub open spec fn company_counts_total(es: Seq<(Seq<char>, TrackerInfo)>, cs: Seq<Seq<char>>) -> nat
    decreases cs.len(),
{
    if cs.len() == 0 {
        0
    } else {
        company_counts_total(es, cs.drop_last()) + trackers_of_company(es, cs.last()).len()
    }
}

/// One more finding for company `c` adds one to the total of any list of
/// distinct companies that holds `c`, and nothing to one that does not.
proof fn lemma_company_counts_shift(
    es: Seq<(Seq<char>, TrackerInfo)>,
    c: Seq<char>,
    cs: Seq<Seq<char>>,
)
    requires
        es.len() > 0,
        es.last().1.company@ == c,
        cs.no_duplicates(),
    ensures
        company_counts_total(es, cs) == company_counts_total(es.drop_last(), cs) + if cs.contains(c) { 1int } else { 0int },
    decreases cs.len(),
{
    if cs.len() > 0 {
        let d = cs.last();
        let rest = cs.drop_last();
        assert(rest.no_duplicates()) by {
            assert forall|a: int, b: int| 0 <= a < rest.len() && 0 <= b < rest.len() && a != b implies rest[a] != rest[b] by {
                assert(rest[a] == cs[a] && rest[b] == cs[b]);
            }
        }
        lemma_company_counts_shift(es, c, rest);
        reveal_with_fuel(Seq::<_>::filter, 1);
        assert(es.drop_last().push(es.last()) =~= es);
        if cs.contains(c) {
            if d != c {
                let q = choose|q: int| 0 <= q < cs.len() && cs[q] == c;
                assert(rest[q] == c);
            }
        } else {
            assert(!rest.contains(c)) by {
                if rest.contains(c) {
                    let q = choose|q: int| 0 <= q < rest.len() && rest[q] == c;
                    assert(cs[q] == c);
                }
            }
        }
        if d == c {
            assert(!rest.contains(c)) by {
                if rest.contains(c) {
                    let q = choose|q: int| 0 <= q < rest.len() && rest[q] == c;
                    assert(cs[q] == c && cs[cs.len() - 1] == c);
                }
            }
        }
    }
}

/// A company with no finding has a count of zero.
proof fn lemma_no_findings(es: Seq<(Seq<char>, TrackerInfo)>, c: Seq<char>)
    requires
        forall|k: int| 0 <= k < es.len() ==> (#[trigger] es[k]).1.company@ != c,
    ensures
        trackers_of_company(es, c).len() == 0,
    decreases es.len(),
{
    if es.len() > 0 {
        let rest = es.drop_last();
        assert forall|k: int| 0 <= k < rest.len() implies (#[trigger] rest[k]).1.company@ != c by {
            assert(rest[k] == es[k]);
        }
        lemma_no_findings(rest, c);
        reveal_with_fuel(Seq::<_>::filter, 1);
        assert(es.last() == es[es.len() - 1]);
    }
}

/// The finding counts of the companies found add up to the number of
/// findings: every tracker is counted under exactly one company.
pub proof fn lemma_company_counts_total(es: Seq<(Seq<char>, TrackerInfo)>)
    ensures
        company_counts_total(es, companies_in_order(es)) == es.len(),
    decreases es.len(),
{
    if es.len() > 0 {
        let rest = es.drop_last();
        let c = es.last().1.company@;
        lemma_company_counts_total(rest);
        lemma_companies_found(rest);
        lemma_companies_found(es);
        let prev = companies_in_order(rest);
        lemma_company_counts_shift(es, c, prev);
        if !prev.contains(c) {
            let cur = prev.push(c);
            assert(cur.drop_last() =~= prev);
            assert forall|k: int| 0 <= k < rest.len() implies (#[trigger] rest[k]).1.company@ != c by {
                assert(prev.contains(rest[k].1.company@));
            }
            lemma_no_findings(rest, c);
            reveal_with_fuel(Seq::<_>::filter, 1);
            assert(rest.push(es.last()) =~= es);
            assert(trackers_of_company(es, c).len() == trackers_of_company(rest, c).len() + 1);
        }
    }
}

/// The position of `company` in a list of (company, count).
fn company_position(r: &Vec<(&'static str, usize)>, company: &str) -> (p: Option<usize>)
    ensures
        match p {
            Some(a) => a < r@.len() && r@[a as int].0@ == company@,
            None => forall|b: int| 0 <= b < r@.len() ==> (#[trigger] r@[b]).0@ != company@,
        },
{
    let mut a: usize = 0;
    while a < r.len()
        invariant
            a <= r@.len(),
            forall|b: int| 0 <= b < a ==> (#[trigger] r@[b]).0@ != company@,
        decreases r.len() - a,
    {
        if str_eq(r[a].0, company) {
            return Some(a);
        }
        a += 1;
    }
    None
}

/// A category with its count, when the count is not zero.
pub open spec fn count_entry(c: TrackerCategory, n: nat) -> Seq<(TrackerCategory, nat)> {
    if n > 0 {
        seq![(c, n)]
    } else {
        seq![]
    }
}

/// The categories counted at least once with their counts, in declaration order.
pub open spec fn counted_categories(cc: CategoryCounts) -> Seq<(TrackerCategory, nat)> {
    count_entry(TrackerCategory::Advertising, cc.count(TrackerCategory::Advertising)) + count_entry(
        TrackerCategory::Analytics,
        cc.count(TrackerCategory::Analytics),
    ) + count_entry(TrackerCategory::Social, cc.count(TrackerCategory::Social)) + count_entry(
        TrackerCategory::Fingerprinting,
        cc.count(TrackerCategory::Fingerprinting),
    ) + count_entry(TrackerCategory::Content, cc.count(TrackerCategory::Content))
}

/// How many trackers of each category were found.
pub struct CategoryCounts {
    advertising: usize,
    analytics: usize,
    social: usize,
    fingerprinting: usize,
    content: usize,
}

impl CategoryCounts {
    /// The count held for category `c`.
    pub closed spec fn count(&self, c: TrackerCategory) -> nat {
        match c {
            TrackerCategory::Advertising => self.advertising as nat,
            TrackerCategory::Analytics => self.analytics as nat,
            TrackerCategory::Social => self.social as nat,
            TrackerCategory::Fingerprinting => self.fingerprinting as nat,
            TrackerCategory::Content => self.content as nat,
        }
    }

    /// Nothing counted.
    pub fn new() -> (r: CategoryCounts)
        ensures
            forall|c: TrackerCategory| #[trigger] r.count(c) == 0,
    {
        CategoryCounts { advertising: 0, analytics: 0, social: 0, fingerprinting: 0, content: 0 }
    }

    /// The count of category `c`.
    pub fn get(&self, c: TrackerCategory) -> (r: usize)
        ensures
            r == self.count(c),
    {
        match c {
            TrackerCategory::Advertising => self.advertising,
            TrackerCategory::Analytics => self.analytics,
            TrackerCategory::Social => self.social,
            TrackerCategory::Fingerprinting => self.fingerprinting,
            TrackerCategory::Content => self.content,
        }
    }

    /// The categories counted at least once, with their counts, in the
    /// order Advertising, Analytics, Social, Fingerprinting, Content.
    pub fn counted(&self) -> (r: Vec<(TrackerCategory, usize)>)
        ensures
            r@.map_values(|p: (TrackerCategory, usize)| (p.0, p.1 as nat)) == counted_categories(*self),
    {
        let mut r: Vec<(TrackerCategory, usize)> = Vec::new();
        let ghost mut expected: Seq<(TrackerCategory, nat)> = seq![];
        if self.advertising > 0 {
            r.push((TrackerCategory::Advertising, self.advertising));
        }
        proof { expected = expected + count_entry(TrackerCategory::Advertising, self.count(TrackerCategory::Advertising)); }
        assert(r@.map_values(|p: (TrackerCategory, usize)| (p.0, p.1 as nat)) =~= expected);
        if self.analytics > 0 {
            r.push((TrackerCategory::Analytics, self.analytics));
        }
        proof { expected = expected + count_entry(TrackerCategory::Analytics, self.count(TrackerCategory::Analytics)); }
        assert(r@.map_values(|p: (TrackerCategory, usize)| (p.0, p.1 as nat)) =~= expected);
        if self.social > 0 {
            r.push((TrackerCategory::Social, self.social));
        }
        proof { expected = expected + count_entry(TrackerCategory::Social, self.count(TrackerCategory::Social)); }
        assert(r@.map_values(|p: (TrackerCategory, usize)| (p.0, p.1 as nat)) =~= expected);
        if self.fingerprinting > 0 {
            r.push((TrackerCategory::Fingerprinting, self.fingerprinting));
        }
        proof { expected = expected + count_entry(TrackerCategory::Fingerprinting, self.count(TrackerCategory::Fingerprinting)); }
        assert(r@.map_values(|p: (TrackerCategory, usize)| (p.0, p.1 as nat)) =~= expected);
        if self.content > 0 {
            r.push((TrackerCategory::Content, self.content));
        }
        proof { expected = expected + count_entry(TrackerCategory::Content, self.count(TrackerCategory::Content)); }
        assert(r@.map_values(|p: (TrackerCategory, usize)| (p.0, p.1 as nat)) =~= expected);
        r
    }
}

/// Every pair of `s` holds a category with its own non-zero count, and no
/// category twice.
pub open spec fn pairs_match_counts(cc: CategoryCounts, s: Seq<(TrackerCategory, nat)>) -> bool {
    &&& forall|i: int| 0 <= i < s.len() ==> (#[trigger] s[i]).1 == cc.count(s[i].0) && s[i].1 > 0
    &&& forall|i: int, j: int| 0 <= i < j < s.len() ==> (#[trigger] s[i]).0 != (#[trigger] s[j]).0
}

/// The counted categories are exactly the categories counted at least once,
/// each once and with its own count: a pair (c, n) is listed exactly when
/// `n` is the count of `c` and is not zero.
pub proof fn lemma_counted_pairs(cc: CategoryCounts)
    ensures
        pairs_match_counts(cc, counted_categories(cc)),
        forall|c: TrackerCategory| cc.count(c) > 0 <==> #[trigger] counted_categories(cc).contains((c, cc.count(c))),
{
    let e1 = count_entry(TrackerCategory::Advertising, cc.count(TrackerCategory::Advertising));
    let e2 = count_entry(TrackerCategory::Analytics, cc.count(TrackerCategory::Analytics));
    let e3 = count_entry(TrackerCategory::Social, cc.count(TrackerCategory::Social));
    let e4 = count_entry(TrackerCategory::Fingerprinting, cc.count(TrackerCategory::Fingerprinting));
    let e5 = count_entry(TrackerCategory::Content, cc.count(TrackerCategory::Content));
    let s = counted_categories(cc);
    assert(s == e1 + e2 + e3 + e4 + e5);
    let cats = seq![
        TrackerCategory::Advertising,
        TrackerCategory::Analytics,
        TrackerCategory::Social,
        TrackerCategory::Fingerprinting,
        TrackerCategory::Content,
    ];
    let es = seq![e1, e2, e3, e4, e5];
    // Each entry is empty or the one pair of its own category.
    assert forall|k: int| 0 <= k < 5 implies (#[trigger] es[k]) == count_entry(cats[k], cc.count(cats[k])) by {}
    assert forall|i: int| 0 <= i < s.len() implies (#[trigger] s[i]).1 == cc.count(s[i].0) && s[i].1 > 0 by {
        let n1 = e1.len() as int;
        let n2 = n1 + e2.len();
        let n3 = n2 + e3.len();
        let n4 = n3 + e4.len();
        if i < n1 {
        } else if i < n2 {
            assert(s[i] == e2[i - n1]);
        } else if i < n3 {
            assert(s[i] == e3[i - n2]);
        } else if i < n4 {
            assert(s[i] == e4[i - n3]);
        } else {
            assert(s[i] == e5[i - n4]);
        }
    }
    assert forall|i: int, j: int| 0 <= i < j < s.len() implies (#[trigger] s[i]).0 != (#[trigger] s[j]).0 by {
        let n1 = e1.len() as int;
        let n2 = n1 + e2.len();
        let n3 = n2 + e3.len();
        let n4 = n3 + e4.len();
        let ki = if i < n1 { 0int } else if i < n2 { 1int } else if i < n3 { 2int } else if i < n4 { 3int } else { 4int };
        let kj = if j < n1 { 0int } else if j < n2 { 1int } else if j < n3 { 2int } else if j < n4 { 3int } else { 4int };
        assert(s[i].0 == cats[ki]) by {
            if i >= n1 && i < n2 { assert(s[i] == e2[i - n1]); }
            if i >= n2 && i < n3 { assert(s[i] == e3[i - n2]); }
            if i >= n3 && i < n4 { assert(s[i] == e4[i - n3]); }
            if i >= n4 { assert(s[i] == e5[i - n4]); }
        }
        assert(s[j].0 == cats[kj]) by {
            if j >= n1 && j < n2 { assert(s[j] == e2[j - n1]); }
            if j >= n2 && j < n3 { assert(s[j] == e3[j - n2]); }
            if j >= n3 && j < n4 { assert(s[j] == e4[j - n3]); }
            if j >= n4 { assert(s[j] == e5[j - n4]); }
        }
    }
    assert forall|c: TrackerCategory| cc.count(c) > 0 <==> #[trigger] s.contains((c, cc.count(c))) by {
        let n1 = e1.len() as int;
        let n2 = n1 + e2.len();
        let n3 = n2 + e3.len();
        let n4 = n3 + e4.len();
        if cc.count(c) > 0 {
            match c {
                TrackerCategory::Advertising => { assert(s[0] == (c, cc.count(c))); },
                TrackerCategory::Analytics => { assert(s[n1] == (c, cc.count(c))); },
                TrackerCategory::Social => { assert(s[n2] == (c, cc.count(c))); },
                TrackerCategory::Fingerprinting => { assert(s[n3] == (c, cc.count(c))); },
                TrackerCategory::Content => { assert(s[n4] == (c, cc.count(c))); },
            }
        }
        if s.contains((c, cc.count(c))) {
            let i = choose|i: int| 0 <= i < s.len() && s[i] == (c, cc.count(c));
            assert(s[i].1 > 0);
        }
    }
}

/// Results of scanning one or more pages.
pub struct ScanResults {
    pub pages_scanned: usize,
    pub total_domains: usize,
    pub tracker_domains: usize,
    /// Every tracker found; grouped by company on demand.
    pub by_company: CompanyTrackers,
    /// The number of trackers found per category.
    pub by_category: CategoryCounts,
}

/// The tallies agree with the findings: one tracker counted per finding, and
/// each category counted as often as it was found.
pub open spec fn results_consistent(r: ScanResults) -> bool {
    &&& r.tracker_domains == r.by_company@.len()
    &&& forall|c: TrackerCategory| #[trigger] r.by_category.count(c) == findings_of_category(r.by_company@, c).len()
}

impl ScanResults {
    /// Nothing scanned yet.
    pub fn new() -> (r: ScanResults)
        ensures
            r.pages_scanned == 0,
            r.total_domains == 0,
            r.tracker_domains == 0,
            r.by_company@ == Seq::<(Seq<char>, TrackerInfo)>::empty(),
            forall|c: TrackerCategory| #[trigger] r.by_category.count(c) == 0,
            results_consistent(r),
    {
        let r = ScanResults {
            pages_scanned: 0,
            total_domains: 0,
            tracker_domains: 0,
            by_company: CompanyTrackers::new(),
            by_category: CategoryCounts::new(),
        };
        proof {
            reveal_with_fuel(Seq::<_>::filter, 1);
        }
        r
    }

    /// Records that `domain`, known as `info`, was found.
    pub fn add_tracker(&mut self, domain: String, info: TrackerInfo)
        requires
            old(self).tracker_domains < usize::MAX,
            old(self).by_category.count(info.category) < usize::MAX,
        ensures
            final(self).pages_scanned == old(self).pages_scanned,
            final(self).total_domains == old(self).total_domains,
            final(self).tracker_domains == old(self).tracker_domains + 1,
            final(self).by_company@ == old(self).by_company@.push((domain@, info)),
            forall|c: TrackerCategory| #[trigger] final(self).by_category.count(c) == old(self).by_category.count(c) + if c == info.category { 1int } else { 0int },
            results_consistent(*old(self)) ==> results_consistent(*final(self)),
    {
        let ghost old_es = self.by_company@;
        let ghost dv = domain@;
        self.by_company.entries.push((domain, info));
        assert(self.by_company@ =~= old_es.push((dv, info)));
        match info.category {
            TrackerCategory::Advertising => self.by_category.advertising = self.by_category.advertising + 1,
            TrackerCategory::Analytics => self.by_category.analytics = self.by_category.analytics + 1,
            TrackerCategory::Social => self.by_category.social = self.by_category.social + 1,
            TrackerCategory::Fingerprinting => self.by_category.fingerprinting = self.by_category.fingerprinting + 1,
            TrackerCategory::Content => self.by_category.content = self.by_category.content + 1,
        }
        self.tracker_domains = self.tracker_domains + 1;
        proof {
            reveal_with_fuel(Seq::<_>::filter, 1);
            let es = self.by_company@;
            assert(es.drop_last() =~= old_es);
            assert forall|c: TrackerCategory| findings_of_category(es, c).len() == findings_of_category(old_es, c).len() + if c == info.category { 1int } else { 0int } by {
                assert(es.drop_last() =~= old_es);
            }
            if results_consistent(*old(self)) {
                assert forall|c: TrackerCategory| #[trigger] self.by_category.count(c) == findings_of_category(es, c).len() by {
                    assert(old(self).by_category.count(c) == findings_of_category(old_es, c).len());
                    assert(findings_of_category(es, c).len() == findings_of_category(old_es, c).len() + if c == info.category { 1int } else { 0int });
                }
            }
        }
    }
}

/// Each finding has exactly one category: the category counts of a list of
/// findings add up to its length.
pub proof fn lemma_categories_partition(es: Seq<(Seq<char>, TrackerInfo)>)
    ensures
        findings_of_category(es, TrackerCategory::Advertising).len() + findings_of_category(es, TrackerCategory::Analytics).len()
            + findings_of_category(es, TrackerCategory::Social).len() + findings_of_category(
            es,
            TrackerCategory::Fingerprinting,
        ).len() + findings_of_category(es, TrackerCategory::Content).len() == es.len(),
    decreases es.len(),
{
    reveal_with_fuel(Seq::<_>::filter, 1);
    if es.len() > 0 {
        lemma_categories_partition(es.drop_last());
    }
}

/// In consistent results, the per-category counts add up to the number of
/// trackers found.
pub proof fn lemma_category_counts_total(r: ScanResults)
    requires
        results_consistent(r),
    ensures
        r.by_category.count(TrackerCategory::Advertising) + r.by_category.count(TrackerCategory::Analytics)
            + r.by_category.count(TrackerCategory::Social) + r.by_category.count(TrackerCategory::Fingerprinting)
            + r.by_category.count(TrackerCategory::Content) == r.tracker_domains,
{
    lemma_categories_partition(r.by_company@);
    assert(r.by_category.count(TrackerCategory::Advertising) == findings_of_category(r.by_company@, TrackerCategory::Advertising).len());
    assert(r.by_category.count(TrackerCategory::Analytics) == findings_of_category(r.by_company@, TrackerCategory::Analytics).len());
    assert(r.by_category.count(TrackerCategory::Social) == findings_of_category(r.by_company@, TrackerCategory::Social).len());
    assert(r.by_category.count(TrackerCategory::Fingerprinting) == findings_of_category(r.by_company@, TrackerCategory::Fingerprinting).len());
    assert(r.by_category.count(TrackerCategory::Content) == findings_of_category(r.by_company@, TrackerCategory::Content).len());
}

/// The tracker database tallied as if each held domain had been found once:
/// its domains grouped by company and counted by category.
pub fn tally_database(db: &TrackerDb) -> (r: ScanResults)
    ensures
        results_consistent(r),
        r.by_company@.len() == db@.dom().len(),
        forall|i: int| 0 <= i < r.by_company@.len() ==> #[trigger] db@.contains_key(r.by_company@[i].0) && db@[r.by_company@[i].0] == r.by_company@[i].1,
        forall|k: Seq<char>| #[trigger] db@.contains_key(k) ==> exists|i: int| 0 <= i < r.by_company@.len() && #[trigger] r.by_company@[i].0 == k,
{
    let entries = db.entries();
    let mut r = ScanResults::new();
    let mut i: usize = 0;
    while i < entries.len()
        invariant
            i <= entries@.len(),
            results_consistent(r),
            r.tracker_domains == i,
            forall|c: TrackerCategory| #[trigger] r.by_category.count(c) <= i,
            r.by_company@ == entries@.take(i as int).map_values(|e: (&'static str, TrackerInfo)| (e.0@, e.1)),
        decreases entries.len() - i,
    {
        let (d, info) = entries[i];
        r.add_tracker(String::from_str(d), info);
        assert(r.by_company@ =~= entries@.take(i + 1).map_values(|e: (&'static str, TrackerInfo)| (e.0@, e.1)));
        i += 1;
    }
    assert(entries@.take(entries@.len() as int) =~= entries@);
    proof {
        assert forall|k: Seq<char>| #[trigger] db@.contains_key(k) implies exists|a: int| 0 <= a < r.by_company@.len() && #[trigger] r.by_company@[a].0 == k by {
            let a = choose|a: int| 0 <= a < entries@.len() && #[trigger] entries@[a].0@ == k;
            assert(r.by_company@[a].0 == k);
        }
        assert forall|a: int| 0 <= a < r.by_company@.len() implies #[trigger] db@.contains_key(r.by_company@[a].0) && db@[r.by_company@[a].0] == r.by_company@[a].1 by {
            assert(r.by_company@[a] == (entries@[a].0@, entries@[a].1));
            assert(db@.contains_key(entries@[a].0@));
        }
    }
    r
}

/// The findings of one scanned page: each of its third-party domains that the
/// database knows, with what is known of it, in the order given.
pub open spec fn page_findings(db: Map<Seq<char>, TrackerInfo>, domains: Seq<Seq<char>>) -> Seq<(Seq<char>, TrackerInfo)>
    decreases domains.len(),
{
    if domains.len() == 0 {
        seq![]
    } else {
        let rest = page_findings(db, domains.drop_last());
        match lookup_lowered(db, lowercase(domains.last())) {
            Some(info) => rest.push((domains.last(), info)),
            None => rest,
        }
    }
}

impl ScanResults {
    /// Records one scanned page with its third-party `domains`: the page and
    /// its domains are counted, and each domain the database knows is added as
    /// a tracker. Returns the number of trackers on the page.
    pub fn record_page(&mut self, db: &TrackerDb, domains: &Vec<String>) -> (r: usize)
        requires
            old(self).pages_scanned < usize::MAX,
            old(self).total_domains + domains@.len() <= usize::MAX,
            old(self).tracker_domains + domains@.len() <= usize::MAX,
            forall|c: TrackerCategory| #[trigger] old(self).by_category.count(c) + domains@.len() <= usize::MAX,
        ensures
            final(self).pages_scanned == old(self).pages_scanned + 1,
            final(self).total_domains == old(self).total_domains + domains@.len(),
            final(self).by_company@ == old(self).by_company@ + page_findings(db@, domains@.map_values(|d: String| d@)),
            r == page_findings(db@, domains@.map_values(|d: String| d@)).len(),
            final(self).tracker_domains == old(self).tracker_domains + r,
            results_consistent(*old(self)) ==> results_consistent(*final(self)),
    {
        let ghost dv = domains@.map_values(|d: String| d@);
        let ghost start = self.by_company@;
        let ghost t0 = self.tracker_domains;
        let ghost consistent0 = results_consistent(*self);
        let ghost counts0 = |c: TrackerCategory| self.by_category.count(c);
        self.pages_scanned = self.pages_scanned + 1;
        self.total_domains = self.total_domains + domains.len();
        let mut found: usize = 0;
        let mut i: usize = 0;
        while i < domains.len()
            invariant
                i <= domains@.len(),
                dv == domains@.map_values(|d: String| d@),
                found <= i,
                self.pages_scanned == old(self).pages_scanned + 1,
                self.total_domains == old(self).total_domains + domains@.len(),
                self.tracker_domains == t0 + found,
                t0 + domains@.len() <= usize::MAX,
                forall|c: TrackerCategory| #[trigger] counts0(c) + domains@.len() <= usize::MAX,
                forall|c: TrackerCategory| #[trigger] self.by_category.count(c) <= counts0(c) + found,
                self.by_company@ == start + page_findings(db@, dv.take(i as int)),
                found == page_findings(db@, dv.take(i as int)).len(),
                consistent0 ==> results_consistent(*self),
            decreases domains.len() - i,
        {
            assert(dv.take(i + 1).drop_last() =~= dv.take(i as int));
            assert(dv.take(i + 1).last() == domains@[i as int]@);
            match lookup_domain(db, domains[i].as_str()) {
                Some(info) => {
                    let info_copy = *info;
                    let ghost before = self.by_company@;
                    self.add_tracker(domains[i].clone(), info_copy);
                    found = found + 1;
                    assert(self.by_company@ =~= start + page_findings(db@, dv.take(i + 1)));
                },
                None => {
                    assert(page_findings(db@, dv.take(i + 1)) == page_findings(db@, dv.take(i as int)));
                },
            }
            i += 1;
        }
        assert(dv.take(domains@.len() as int) =~= dv);
        found
    }
}

/// The domains among `domains` that the database knows as trackers, in order.
pub fn trackers_among(db: &TrackerDb, domains: &Vec<String>) -> (r: Vec<String>)
    ensures
        r@.map_values(|d: String| d@) == page_findings(db@, domains@.map_values(|d: String| d@)).map_values(
            |f: (Seq<char>, TrackerInfo)| f.0,
        ),
{
    let ghost dv = domains@.map_values(|d: String| d@);
    let mut r: Vec<String> = Vec::new();
    let mut i: usize = 0;
    while i < domains.len()
        invariant
            i <= domains@.len(),
            dv == domains@.map_values(|d: String| d@),
            r@.map_values(|d: String| d@) == page_findings(db@, dv.take(i as int)).map_values(|f: (Seq<char>, TrackerInfo)| f.0),
        decreases domains.len() - i,
    {
        assert(dv.take(i + 1).drop_last() =~= dv.take(i as int));
        assert(dv.take(i + 1).last() == domains@[i as int]@);
        let ghost before = r@;
        match lookup_domain(db, domains[i].as_str()) {
            Some(_) => {
                r.push(domains[i].clone());
                assert(r@.map_values(|d: String| d@) =~= before.map_values(|d: String| d@).push(domains@[i as int]@));
            },
            None => {},
        }
        assert(r@.map_values(|d: String| d@) =~= page_findings(db@, dv.take(i + 1)).map_values(|f: (Seq<char>, TrackerInfo)| f.0));
        i += 1;
    }
    assert(dv.take(domains@.len() as int) =~= dv);
    r
}

/// The counts along `s` never grow.
pub open spec fn counts_descending<T>(s: Seq<(T, usize)>) -> bool {
    forall|i: int, j: int| 0 <= i < j < s.len() ==> (#[trigger] s[i]).1 >= (#[trigger] s[j]).1
}

/// The test that an item has count `n`.
pub open spec fn count_is<T>(n: usize) -> spec_fn((T, usize)) -> bool {
    |p: (T, usize)| p.1 == n
}

/// The items of `s` with count `n`, in their order.
pub open spec fn with_count<T>(s: Seq<(T, usize)>, n: usize) -> Seq<(T, usize)> {
    s.filter(count_is(n))
}

/// Nothing passes a filter that no item passes.
proof fn lemma_filter_none<A>(s: Seq<A>, pred: spec_fn(A) -> bool)
    requires
        forall|k: int| 0 <= k < s.len() ==> !pred(#[trigger] s[k]),
    ensures
        s.filter(pred) == Seq::<A>::empty(),
    decreases s.len(),
{
    reveal_with_fuel(Seq::<_>::filter, 1);
    if s.len() > 0 {
        assert forall|k: int| 0 <= k < s.drop_last().len() implies !pred(#[trigger] s.drop_last()[k]) by {
            assert(s.drop_last()[k] == s[k]);
        }
        lemma_filter_none(s.drop_last(), pred);
        assert(!pred(s[s.len() - 1]));
    }
    assert(s.filter(pred) =~= Seq::<A>::empty());
}

/// Putting `x` in at `p`, after every item counted at least as much and before
/// every item counted less, appends it to the items of its count and leaves
/// the items of every other count as they were.
proof fn lemma_insert_with_count<T>(s: Seq<(T, usize)>, p: int, x: (T, usize), n: usize)
    requires
        0 <= p <= s.len(),
        forall|k: int| 0 <= k < p ==> (#[trigger] s[k]).1 >= x.1,
        forall|k: int| p <= k < s.len() ==> (#[trigger] s[k]).1 < x.1,
    ensures
        with_count(s.insert(p, x), n) == if n == x.1 { with_count(s, n).push(x) } else { with_count(s, n) },
{
    let pred = count_is::<T>(n);
    let a = s.take(p);
    let b = s.skip(p);
    assert(s =~= a + b);
    assert(s.insert(p, x) =~= a + seq![x] + b);
    Seq::filter_distributes_over_add(a, b, pred);
    Seq::filter_distributes_over_add(a, seq![x], pred);
    Seq::filter_distributes_over_add(a + seq![x], b, pred);
    reveal_with_fuel(Seq::<_>::filter, 2);
    assert(seq![x].drop_last() =~= Seq::<(T, usize)>::empty());
    if n == x.1 {
        assert forall|k: int| 0 <= k < b.len() implies !pred(#[trigger] b[k]) by {
            assert(b[k] == s[p + k]);
        }
        lemma_filter_none(b, pred);
        assert(with_count(s, n) =~= a.filter(pred));
        assert(with_count(s.insert(p, x), n) =~= a.filter(pred).push(x));
    } else {
        assert(seq![x].filter(pred) =~= Seq::<(T, usize)>::empty());
        assert(with_count(s.insert(p, x), n) =~= a.filter(pred) + b.filter(pred));
    }
}

/// The items ordered by count, largest first; items with equal counts keep
/// their order.
pub fn rank_by_count<T: Copy>(items: &Vec<(T, usize)>) -> (r: Vec<(T, usize)>)
    ensures
        r@.to_multiset() == items@.to_multiset(),
        counts_descending(r@),
        forall|n: usize| #[trigger] with_count(r@, n) == with_count(items@, n),
{
    let mut r: Vec<(T, usize)> = Vec::new();
    let mut i: usize = 0;
    assert(items@.take(0) =~= r@);
    while i < items.len()
        invariant
            i <= items@.len(),
            r@.to_multiset() == items@.take(i as int).to_multiset(),
            counts_descending(r@),
            forall|n: usize| #[trigger] with_count(r@, n) == with_count(items@.take(i as int), n),
        decreases items.len() - i,
    {
        let x = items[i];
        let mut p: usize = 0;
        while p < r.len() && r[p].1 >= x.1
            invariant
                p <= r@.len(),
                forall|k: int| 0 <= k < p ==> (#[trigger] r@[k]).1 >= x.1,
            decreases r.len() - p,
        {
            p += 1;
        }
        let ghost before = r@;
        r.insert(p, x);
        proof {
            assert(items@.take(i + 1) =~= items@.take(i as int).push(x));
            vstd::seq_lib::to_multiset_insert(before, p as int, x);
            vstd::seq_lib::to_multiset_build(items@.take(i as int), x);
            assert forall|k: int| p <= k < before.len() implies (#[trigger] before[k]).1 < x.1 by {
                if before[k].1 >= x.1 {
                    assert(before[p as int].1 >= before[k].1);
                }
            }
            assert forall|n: usize| #[trigger] with_count(r@, n) == with_count(items@.take(i + 1), n) by {
                lemma_insert_with_count(before, p as int, x, n);
                reveal_with_fuel(Seq::<_>::filter, 1);
                assert(items@.take(i + 1).drop_last() =~= items@.take(i as int));
            }
            assert forall|a: int, b: int| 0 <= a < b < r@.len() implies (#[trigger] r@[a]).1 >= (#[trigger] r@[b]).1 by {
                if b < p {
                    assert(r@[a] == before[a] && r@[b] == before[b]);
                } else if b == p {
                    assert(r@[a] == before[a]);
                } else if a < p {
                    assert(r@[a] == before[a] && r@[b] == before[b - 1]);
                    assert(before[p as int].1 < x.1);
                    if a < p {
                        assert(before[a].1 >= x.1);
                    }
                } else if a == p {
                    assert(r@[b] == before[b - 1]);
                    assert(before[p as int].1 < x.1);
                } else {
                    assert(r@[a] == before[a - 1] && r@[b] == before[b - 1]);
                }
            }
        }
        i += 1;
    }
    assert(items@.take(items@.len() as int) =~= items@);
    r
}

} // verus!
