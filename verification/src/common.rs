//! Severity levels and the rules that rate breached data and derive the
//! actions a user should take.
use colored::Colorize;
use vstd::prelude::*;
use crate::text::{
    ascii_lower, ascii_upper, chars_of, concat3, contains_str, has_substring, is_ascii_chars, occurs_at, lowercase, str_eq,
    to_lowercase, to_uppercase, uppercase,
};

verus! {

/// How urgent an action or a breach is; ordered from least to most urgent.
#[derive(Debug, Clone, Copy, PartialEq, Eq, Structural, PartialOrd, Ord, Hash)]
pub enum Severity {
    Low,
    Medium,
    High,
    Critical,
}

/// The label under which a severity is shown and stored.
pub open spec fn severity_label(s: Severity) -> Seq<char> {
    match s {
        Severity::Low => "LOW"@,
        Severity::Medium => "MEDIUM"@,
        Severity::High => "HIGH"@,
        Severity::Critical => "CRITICAL"@,
    }
}

/// The severity named by an already upper-cased label; anything unknown is `Low`.
pub open spec fn severity_of_upper(u: Seq<char>) -> Severity {
    if u == "CRITICAL"@ {
        Severity::Critical
    } else if u == "HIGH"@ {
        Severity::High
    } else if u == "MEDIUM"@ {
        Severity::Medium
    } else {
        Severity::Low
    }
}

impl Severity {
    /// The label of this severity.
    pub fn as_str(&self) -> (r: &'static str)
        ensures
            r@ == severity_label(*self),
    {
        match self {
            Severity::Low => "LOW",
            Severity::Medium => "MEDIUM",
            Severity::High => "HIGH",
            Severity::Critical => "CRITICAL",
        }
    }

    /// The label of this severity, as an owned string.
    pub fn to_string(&self) -> (r: String)
        ensures
            r@ == severity_label(*self),
    {
        String::from_str(self.as_str())
    }

    /// The severity named by an upper-cased label; anything unknown is `Low`.
    pub fn from_upper(u: &str) -> (r: Severity)
        ensures
            r == severity_of_upper(u@),
    {
        if str_eq(u, "CRITICAL") {
            Severity::Critical
        } else if str_eq(u, "HIGH") {
            Severity::High
        } else if str_eq(u, "MEDIUM") {
            Severity::Medium
        } else {
            Severity::Low
        }
    }

    /// Reads a severity label case-insensitively; anything unknown is `Low`.
    pub fn from_str_loose(s: &str) -> (r: Severity)
        ensures
            r == severity_of_upper(uppercase(s@)),
            is_ascii_chars(s@) ==> r == severity_of_upper(s@.map_values(|c: char| ascii_upper(c))),
    {
        let u = to_uppercase(s);
        Severity::from_upper(u.as_str())
    }
}


/// A stored severity label reads back as the same severity, also when it was
/// lowered first: the label is ASCII, and upper-casing it, or its lowered
/// form, gives the label.
pub proof fn lemma_label_reads_back(x: Severity)
    ensures
        is_ascii_chars(severity_label(x)),
        severity_of_upper(severity_label(x).map_values(|c: char| ascii_upper(c))) == x,
        is_ascii_chars(severity_label(x).map_values(|c: char| ascii_lower(c))),
        severity_of_upper(
            severity_label(x).map_values(|c: char| ascii_lower(c)).map_values(|c: char| ascii_upper(c)),
        ) == x,
{
    reveal_strlit("LOW");
    reveal_strlit("MEDIUM");
    reveal_strlit("HIGH");
    reveal_strlit("CRITICAL");
    let l = severity_label(x);
    let low = l.map_values(|c: char| ascii_lower(c));
    assert(l.map_values(|c: char| ascii_upper(c)) =~= l);
    assert forall|i: int| 0 <= i < low.len() implies (#[trigger] low[i] as int) < 128 by {
        assert(low[i] == ascii_lower(l[i]));
    }
    assert(low.map_values(|c: char| ascii_upper(c)) =~= l);
    assert("LOW"@.len() == 3 && "HIGH"@.len() == 4 && "MEDIUM"@.len() == 6 && "CRITICAL"@.len() == 8);
}

/// The position of a severity in the order `Low < Medium < High < Critical`.
pub open spec fn severity_level(s: Severity) -> int {
    match s {
        Severity::Low => 0,
        Severity::Medium => 1,
        Severity::High => 2,
        Severity::Critical => 3,
    }
}

/// The more urgent of two severities.
pub open spec fn more_urgent(a: Severity, b: Severity) -> Severity {
    if severity_level(a) >= severity_level(b) {
        a
    } else {
        b
    }
}

/// Lowered data-type names: each one mapped by `str::to_lowercase`.
pub open spec fn lowered(types: Seq<String>) -> Seq<Seq<char>> {
    types.map_values(|t: String| lowercase(t@))
}

/// Data of this type makes a breach critical.
pub open spec fn critical_term(d: Seq<char>) -> bool {
    ||| has_substring(d, "password"@)
    ||| has_substring(d, "credit card"@)
    ||| has_substring(d, "ssn"@)
    ||| has_substring(d, "social security"@)
    ||| has_substring(d, "financial"@)
}

/// Data of this type makes a breach at least high.
pub open spec fn high_term(d: Seq<char>) -> bool {
    ||| has_substring(d, "phone"@)
    ||| (has_substring(d, "address"@) && !has_substring(d, "email"@) && !has_substring(
        d,
        "ip address"@,
    ))
    ||| (has_substring(d, "name"@) && !has_substring(d, "username"@))
    ||| has_substring(d, "dob"@)
    ||| has_substring(d, "date of birth"@)
    ||| has_substring(d, "passport"@)
    ||| has_substring(d, "genetic"@)
}

/// Data of this type makes a breach at least medium.
pub open spec fn medium_term(d: Seq<char>) -> bool {
    has_substring(d, "email"@) || has_substring(d, "username"@)
}

/// Some lowered data type contains `n`.
pub open spec fn any_has(ls: Seq<Seq<char>>, n: Seq<char>) -> bool {
    exists|i: int| 0 <= i < ls.len() && #[trigger] has_substring(ls[i], n)
}

/// Some lowered data type makes a breach critical.
pub open spec fn any_critical(ls: Seq<Seq<char>>) -> bool {
    exists|i: int| 0 <= i < ls.len() && #[trigger] critical_term(ls[i])
}

/// Some lowered data type makes a breach at least high.
pub open spec fn any_high(ls: Seq<Seq<char>>) -> bool {
    exists|i: int| 0 <= i < ls.len() && #[trigger] high_term(ls[i])
}

/// Some lowered data type makes a breach at least medium.
pub open spec fn any_medium(ls: Seq<Seq<char>>) -> bool {
    exists|i: int| 0 <= i < ls.len() && #[trigger] medium_term(ls[i])
}

/// The severity of a breach that exposed data of the given (lowered) types.
pub open spec fn severity_rule(ls: Seq<Seq<char>>) -> Severity {
    if any_critical(ls) {
        Severity::Critical
    } else if any_high(ls) {
        Severity::High
    } else if any_medium(ls) {
        Severity::Medium
    } else {
        Severity::Low
    }
}

/// The actions advised for a breach named `name` that exposed data of the
/// given (lowered) types, in the order they are advised.
pub open spec fn action_rule(name: Seq<char>, ls: Seq<Seq<char>>) -> Seq<(Seq<char>, Severity)> {
    let a1 = if any_has(ls, "password"@) {
        seq![
            ("Change password for "@ + name + " and any sites sharing that password"@, Severity::Critical),
            ("Enable two-factor authentication where possible"@, Severity::High),
        ]
    } else {
        seq![]
    };
    let a2 = if any_has(ls, "credit card"@) || any_has(ls, "financial"@) {
        seq![
            ("Check bank/credit card statements for unauthorized charges ("@ + name + ")"@, Severity::Critical),
            ("Consider placing a fraud alert on your credit report"@, Severity::High),
        ]
    } else {
        seq![]
    };
    let a3 = if any_has(ls, "ssn"@) || any_has(ls, "social security"@) {
        seq![("Freeze your credit at all three bureaus (Equifax, Experian, TransUnion)"@, Severity::Critical)]
    } else {
        seq![]
    };
    let a4 = if any_has(ls, "phone"@) {
        seq![("Watch for phishing calls/texts referencing "@ + name + " data"@, Severity::High)]
    } else {
        seq![]
    };
    let a5 = if any_has(ls, "address"@) || any_has(ls, "name"@) {
        seq![("Monitor for identity theft attempts related to "@ + name, Severity::High)]
    } else {
        seq![]
    };
    let a6 = if any_has(ls, "email"@) {
        seq![("Watch for targeted phishing emails referencing "@ + name, Severity::Medium)]
    } else {
        seq![]
    };
    let all = a1 + a2 + a3 + a4 + a5 + a6;
    if all.len() == 0 {
        seq![("Review your account settings at "@ + name, Severity::Low)]
    } else {
        all
    }
}

/// The view of a list of advised actions.
pub open spec fn actions_view(v: Seq<(String, Severity)>) -> Seq<(Seq<char>, Severity)> {
    v.map_values(|a: (String, Severity)| (a.0@, a.1))
}

/// Each data type lowered, as characters.
fn lowered_chars(data_types: &[String]) -> (r: Vec<Vec<char>>)
    ensures
        r@.len() == data_types@.len(),
        forall|i: int| 0 <= i < r@.len() ==> #[trigger] r@[i]@ == lowered(data_types@)[i],
{
    let mut r: Vec<Vec<char>> = Vec::new();
    let mut i: usize = 0;
    while i < data_types.len()
        invariant
            i <= data_types@.len(),
            r@.len() == i,
            forall|k: int| 0 <= k < i ==> #[trigger] r@[k]@ == lowered(data_types@)[k],
        decreases data_types.len() - i,
    {
        let low = to_lowercase(data_types[i].as_str());
        r.push(chars_of(low.as_str()));
        i += 1;
    }
    r
}

/// The lowered views of a list of character vectors.
pub open spec fn views(v: Seq<Vec<char>>) -> Seq<Seq<char>> {
    v.map_values(|c: Vec<char>| c@)
}

proof fn lemma_views_of_lowered(r: Vec<Vec<char>>, data_types: &[String])
    requires
        r@.len() == data_types@.len(),
        forall|i: int| 0 <= i < r@.len() ==> #[trigger] r@[i]@ == lowered(data_types@)[i],
    ensures
        views(r@) == lowered(data_types@),
{
    assert(views(r@) =~= lowered(data_types@));
}

/// Whether a lowered data type makes a breach critical.
fn is_critical_term(d: &Vec<char>) -> (r: bool)
    ensures
        r == critical_term(d@),
{
    contains_str(d, "password") || contains_str(d, "credit card") || contains_str(d, "ssn")
        || contains_str(d, "social security") || contains_str(d, "financial")
}

/// Whether a lowered data type makes a breach at least high.
fn is_high_term(d: &Vec<char>) -> (r: bool)
    ensures
        r == high_term(d@),
{
    contains_str(d, "phone") || (contains_str(d, "address") && !contains_str(d, "email")
        && !contains_str(d, "ip address")) || (contains_str(d, "name") && !contains_str(
        d,
        "username",
    )) || contains_str(d, "dob") || contains_str(d, "date of birth") || contains_str(
        d,
        "passport",
    ) || contains_str(d, "genetic")
}

/// Whether a lowered data type makes a breach at least medium.
fn is_medium_term(d: &Vec<char>) -> (r: bool)
    ensures
        r == medium_term(d@),
{
    contains_str(d, "email") || contains_str(d, "username")
}

/// Which rule to test in `any_term`.
enum Term {
    Critical,
    High,
    Medium,
}

/// The rule `t` holds of lowered data type `d`.
spec fn term_holds(t: Term, d: Seq<char>) -> bool {
    match t {
        Term::Critical => critical_term(d),
        Term::High => high_term(d),
        Term::Medium => medium_term(d),
    }
}

/// Whether rule `t` holds of some of the lowered data types.
fn any_term(ls: &Vec<Vec<char>>, t: Term) -> (r: bool)
    ensures
        r == exists|i: int| 0 <= i < ls@.len() && #[trigger] term_holds(t, views(ls@)[i]),
{
    let mut i: usize = 0;
    while i < ls.len()
        invariant
            i <= ls@.len(),
            forall|k: int| 0 <= k < i ==> !#[trigger] term_holds(t, views(ls@)[k]),
        decreases ls.len() - i,
    {
        let hit = match t {
            Term::Critical => is_critical_term(&ls[i]),
            Term::High => is_high_term(&ls[i]),
            Term::Medium => is_medium_term(&ls[i]),
        };
        if hit {
            assert(term_holds(t, views(ls@)[i as int]));
            return true;
        }
        i += 1;
    }
    false
}

/// The severity of a breach that exposed data of the given types.
pub fn severity_for_data_types(data_types: &[String]) -> (r: Severity)
    ensures
        r == severity_rule(lowered(data_types@)),
{
    let ls = lowered_chars(data_types);
    proof {
        lemma_views_of_lowered(ls, data_types);
    }
    let ghost lv = lowered(data_types@);
    let crit = any_term(&ls, Term::Critical);
    assert(crit == any_critical(lv)) by {
        if crit {
            let i = choose|i: int| 0 <= i < ls@.len() && #[trigger] term_holds(Term::Critical, views(ls@)[i]);
            assert(critical_term(lv[i]));
        }
        if any_critical(lv) {
            let i = choose|i: int| 0 <= i < lv.len() && #[trigger] critical_term(lv[i]);
            assert(term_holds(Term::Critical, views(ls@)[i]));
        }
    }
    if crit {
        return Severity::Critical;
    }
    let high = any_term(&ls, Term::High);
    assert(high == any_high(lv)) by {
        if high {
            let i = choose|i: int| 0 <= i < ls@.len() && #[trigger] term_holds(Term::High, views(ls@)[i]);
            assert(high_term(lv[i]));
        }
        if any_high(lv) {
            let i = choose|i: int| 0 <= i < lv.len() && #[trigger] high_term(lv[i]);
            assert(term_holds(Term::High, views(ls@)[i]));
        }
    }
    if high {
        return Severity::High;
    }
    let medium = any_term(&ls, Term::Medium);
    assert(medium == any_medium(lv)) by {
        if medium {
            let i = choose|i: int| 0 <= i < ls@.len() && #[trigger] term_holds(Term::Medium, views(ls@)[i]);
            assert(medium_term(lv[i]));
        }
        if any_medium(lv) {
            let i = choose|i: int| 0 <= i < lv.len() && #[trigger] medium_term(lv[i]);
            assert(term_holds(Term::Medium, views(ls@)[i]));
        }
    }
    if medium {
        Severity::Medium
    } else {
        Severity::Low
    }
}

fn any_has_exec(ls: &Vec<Vec<char>>, n: &str) -> (r: bool)
    ensures
        r == any_has(views(ls@), n@),
{
    let mut i: usize = 0;
    while i < ls.len()
        invariant
            i <= ls@.len(),
            forall|k: int| 0 <= k < i ==> !#[trigger] has_substring(views(ls@)[k], n@),
        decreases ls.len() - i,
    {
        if contains_str(&ls[i], n) {
            assert(has_substring(views(ls@)[i as int], n@));
            return true;
        }
        i += 1;
    }
    false
}

/// The actions advised for a breach named `breach_name` that exposed data of
/// the given types, each with its severity, in the order they are advised.
pub fn actions_for_data_types(breach_name: &str, data_types: &[String]) -> (r: Vec<(String, Severity)>)
    ensures
        actions_view(r@) == action_rule(breach_name@, lowered(data_types@)),
{
    let ls = lowered_chars(data_types);
    proof {
        lemma_views_of_lowered(ls, data_types);
    }
    let ghost lv = lowered(data_types@);
    let ghost name = breach_name@;
    let mut actions: Vec<(String, Severity)> = Vec::new();
    let ghost mut expected: Seq<(Seq<char>, Severity)> = seq![];

    if any_has_exec(&ls, "password") {
        actions.push((concat3("Change password for ", breach_name, " and any sites sharing that password"), Severity::Critical));
        actions.push((String::from_str("Enable two-factor authentication where possible"), Severity::High));
        proof {
            expected = expected + seq![
                ("Change password for "@ + name + " and any sites sharing that password"@, Severity::Critical),
                ("Enable two-factor authentication where possible"@, Severity::High),
            ];
        }
    }
    assert(actions_view(actions@) =~= expected);
    if any_has_exec(&ls, "credit card") || any_has_exec(&ls, "financial") {
        actions.push((concat3("Check bank/credit card statements for unauthorized charges (", breach_name, ")"), Severity::Critical));
        actions.push((String::from_str("Consider placing a fraud alert on your credit report"), Severity::High));
        proof {
            expected = expected + seq![
                ("Check bank/credit card statements for unauthorized charges ("@ + name + ")"@, Severity::Critical),
                ("Consider placing a fraud alert on your credit report"@, Severity::High),
            ];
        }
    }
    assert(actions_view(actions@) =~= expected);
    if any_has_exec(&ls, "ssn") || any_has_exec(&ls, "social security") {
        actions.push((String::from_str("Freeze your credit at all three bureaus (Equifax, Experian, TransUnion)"), Severity::Critical));
        proof {
            expected = expected + seq![("Freeze your credit at all three bureaus (Equifax, Experian, TransUnion)"@, Severity::Critical)];
        }
    }
    assert(actions_view(actions@) =~= expected);
    if any_has_exec(&ls, "phone") {
        actions.push((concat3("Watch for phishing calls/texts referencing ", breach_name, " data"), Severity::High));
        proof {
            expected = expected + seq![("Watch for phishing calls/texts referencing "@ + name + " data"@, Severity::High)];
        }
    }
    assert(actions_view(actions@) =~= expected);
    if any_has_exec(&ls, "address") || any_has_exec(&ls, "name") {
        actions.push((concat3("Monitor for identity theft attempts related to ", breach_name, ""), Severity::High));
        proof {
            assert(""@.len() == 0) by {
                reveal_strlit("");
            }
            assert("Monitor for identity theft attempts related to "@ + name + ""@ =~= "Monitor for identity theft attempts related to "@ + name);
            expected = expected + seq![("Monitor for identity theft attempts related to "@ + name, Severity::High)];
        }
    }
    assert(actions_view(actions@) =~= expected);
    if any_has_exec(&ls, "email") {
        actions.push((concat3("Watch for targeted phishing emails referencing ", breach_name, ""), Severity::Medium));
        proof {
            assert(""@.len() == 0) by {
                reveal_strlit("");
            }
            assert("Watch for targeted phishing emails referencing "@ + name + ""@ =~= "Watch for targeted phishing emails referencing "@ + name);
            expected = expected + seq![("Watch for targeted phishing emails referencing "@ + name, Severity::Medium)];
        }
    }
    assert(actions_view(actions@) =~= expected);
    if actions.len() == 0 {
        actions.push((concat3("Review your account settings at ", breach_name, ""), Severity::Low));
        proof {
            assert(""@.len() == 0) by {
                reveal_strlit("");
            }
            assert("Review your account settings at "@ + name + ""@ =~= "Review your account settings at "@ + name);
        }
        assert(actions_view(actions@) =~= seq![("Review your account settings at "@ + name, Severity::Low)]);
    }
    actions
}

/// The advice never comes out empty: every breach yields at least one action.
pub proof fn lemma_actions_never_empty(breach_name: Seq<char>, types: Seq<String>)
    ensures
        action_rule(breach_name, lowered(types)).len() >= 1,
{
}

/// A breach is rated critical exactly when some advised action for it is critical.
pub proof fn lemma_critical_rating_matches_actions(breach_name: Seq<char>, types: Seq<String>)
    ensures
        (severity_rule(lowered(types)) == Severity::Critical) <==> (exists|j: int|
            0 <= j < action_rule(breach_name, lowered(types)).len() && #[trigger] action_rule(
                breach_name,
                lowered(types),
            )[j].1 == Severity::Critical),
{
    let ls = lowered(types);
    let plan = action_rule(breach_name, ls);
    if any_critical(ls) {
        let i = choose|i: int| 0 <= i < ls.len() && #[trigger] critical_term(ls[i]);
        if has_substring(ls[i], "password"@) {
            assert(any_has(ls, "password"@));
            assert(plan[0].1 == Severity::Critical);
        } else if has_substring(ls[i], "credit card"@) || has_substring(ls[i], "financial"@) {
            assert(any_has(ls, "credit card"@) || any_has(ls, "financial"@));
            let k = if any_has(ls, "password"@) { 2int } else { 0int };
            assert(plan[k].1 == Severity::Critical);
        } else {
            assert(any_has(ls, "ssn"@) || any_has(ls, "social security"@));
            assert(plan[0].1 == Severity::Critical || plan[2].1 == Severity::Critical || plan[4].1 == Severity::Critical);
        }
    } else {
        assert(!any_has(ls, "password"@)) by {
            if any_has(ls, "password"@) {
                let i = choose|i: int| 0 <= i < ls.len() && #[trigger] has_substring(ls[i], "password"@);
                assert(critical_term(ls[i]));
            }
        }
        assert(!any_has(ls, "credit card"@)) by {
            if any_has(ls, "credit card"@) {
                let i = choose|i: int| 0 <= i < ls.len() && #[trigger] has_substring(ls[i], "credit card"@);
                assert(critical_term(ls[i]));
            }
        }
        assert(!any_has(ls, "financial"@)) by {
            if any_has(ls, "financial"@) {
                let i = choose|i: int| 0 <= i < ls.len() && #[trigger] has_substring(ls[i], "financial"@);
                assert(critical_term(ls[i]));
            }
        }
        assert(!any_has(ls, "ssn"@)) by {
            if any_has(ls, "ssn"@) {
                let i = choose|i: int| 0 <= i < ls.len() && #[trigger] has_substring(ls[i], "ssn"@);
                assert(critical_term(ls[i]));
            }
        }
        assert(!any_has(ls, "social security"@)) by {
            if any_has(ls, "social security"@) {
                let i = choose|i: int| 0 <= i < ls.len() && #[trigger] has_substring(ls[i], "social security"@);
                assert(critical_term(ls[i]));
            }
        }
        assert forall|j: int| 0 <= j < plan.len() implies #[trigger] plan[j].1 != Severity::Critical by {
        }
    }
}

/// Some lowered data type of `x + y` passes `t` exactly when one of `x` or of
/// `y` does.
proof fn lemma_any_concat(x: Seq<Seq<char>>, y: Seq<Seq<char>>)
    ensures
        any_critical(x + y) == (any_critical(x) || any_critical(y)),
        any_high(x + y) == (any_high(x) || any_high(y)),
        any_medium(x + y) == (any_medium(x) || any_medium(y)),
{
    let z = x + y;
    assert forall|i: int| 0 <= i < x.len() implies z[i] == x[i] by {}
    assert forall|i: int| 0 <= i < y.len() implies z[x.len() + i] == y[i] by {}
    if any_critical(z) {
        let i = choose|i: int| 0 <= i < z.len() && #[trigger] critical_term(z[i]);
        if i >= x.len() {
            assert(critical_term(y[i - x.len()]));
        }
    }
    if any_critical(y) {
        let i = choose|i: int| 0 <= i < y.len() && #[trigger] critical_term(y[i]);
        assert(critical_term(z[x.len() + i]));
    }
    if any_high(z) {
        let i = choose|i: int| 0 <= i < z.len() && #[trigger] high_term(z[i]);
        if i >= x.len() {
            assert(high_term(y[i - x.len()]));
        }
    }
    if any_high(y) {
        let i = choose|i: int| 0 <= i < y.len() && #[trigger] high_term(y[i]);
        assert(high_term(z[x.len() + i]));
    }
    if any_medium(z) {
        let i = choose|i: int| 0 <= i < z.len() && #[trigger] medium_term(z[i]);
        if i >= x.len() {
            assert(medium_term(y[i - x.len()]));
        }
    }
    if any_medium(y) {
        let i = choose|i: int| 0 <= i < y.len() && #[trigger] medium_term(y[i]);
        assert(medium_term(z[x.len() + i]));
    }
}

/// Rating two lists of data types together gives the more urgent of their
/// two ratings, and no data types rate `Low`: the rating ignores order and
/// never drops when data types are added.
pub proof fn lemma_severity_of_joined(a: Seq<String>, b: Seq<String>)
    ensures
        severity_rule(lowered(a + b)) == more_urgent(severity_rule(lowered(a)), severity_rule(lowered(b))),
        severity_rule(lowered(Seq::<String>::empty())) == Severity::Low,
{
    assert(lowered(a + b) =~= lowered(a) + lowered(b));
    lemma_any_concat(lowered(a), lowered(b));
    assert(lowered(Seq::<String>::empty()) =~= Seq::<Seq<char>>::empty());
}

/// Some data type of the list, lowered, contains `w`.
pub open spec fn some_type_contains(types: Seq<String>, w: Seq<char>) -> bool {
    exists|i: int| 0 <= i < types.len() && #[trigger] has_substring(lowercase(types[i]@), w)
}

/// Some data type of the list, lowered, names critical data: a password, a
/// credit card, an SSN, a social security number or financial data.
pub open spec fn names_critical_data(types: Seq<String>) -> bool {
    ||| some_type_contains(types, "password"@)
    ||| some_type_contains(types, "credit card"@)
    ||| some_type_contains(types, "ssn"@)
    ||| some_type_contains(types, "social security"@)
    ||| some_type_contains(types, "financial"@)
}

/// Some data type of the list, lowered, names personal data that makes a
/// breach high: a phone, a (physical) address, a name, a date of birth, a
/// passport or genetic data.
pub open spec fn names_personal_data(types: Seq<String>) -> bool {
    ||| some_type_contains(types, "phone"@)
    ||| exists|i: int|
        0 <= i < types.len() && #[trigger] has_substring(lowercase(types[i]@), "address"@) && !has_substring(
            lowercase(types[i]@),
            "email"@,
        ) && !has_substring(lowercase(types[i]@), "ip address"@)
    ||| exists|i: int|
        0 <= i < types.len() && #[trigger] has_substring(lowercase(types[i]@), "name"@) && !has_substring(
            lowercase(types[i]@),
            "username"@,
        )
    ||| some_type_contains(types, "dob"@)
    ||| some_type_contains(types, "date of birth"@)
    ||| some_type_contains(types, "passport"@)
    ||| some_type_contains(types, "genetic"@)
}

/// Critical data rates a breach `Critical`, and only critical data does.
pub proof fn lemma_rating_critical(types: Seq<String>)
    ensures
        (severity_rule(lowered(types)) == Severity::Critical) == names_critical_data(types),
{
    let ls = lowered(types);
    assert forall|i: int| 0 <= i < types.len() implies #[trigger] ls[i] == lowercase(types[i]@) by {}
    if names_critical_data(types) {
        if some_type_contains(types, "password"@) {
            let i = choose|i: int| 0 <= i < types.len() && #[trigger] has_substring(lowercase(types[i]@), "password"@);
            assert(critical_term(ls[i]));
        } else if some_type_contains(types, "credit card"@) {
            let i = choose|i: int| 0 <= i < types.len() && #[trigger] has_substring(lowercase(types[i]@), "credit card"@);
            assert(critical_term(ls[i]));
        } else if some_type_contains(types, "ssn"@) {
            let i = choose|i: int| 0 <= i < types.len() && #[trigger] has_substring(lowercase(types[i]@), "ssn"@);
            assert(critical_term(ls[i]));
        } else if some_type_contains(types, "social security"@) {
            let i = choose|i: int| 0 <= i < types.len() && #[trigger] has_substring(lowercase(types[i]@), "social security"@);
            assert(critical_term(ls[i]));
        } else {
            let i = choose|i: int| 0 <= i < types.len() && #[trigger] has_substring(lowercase(types[i]@), "financial"@);
            assert(critical_term(ls[i]));
        }
    }
    if any_critical(ls) {
        let i = choose|i: int| 0 <= i < ls.len() && #[trigger] critical_term(ls[i]);
        assert(has_substring(lowercase(types[i]@), "password"@) ==> some_type_contains(types, "password"@));
        assert(has_substring(lowercase(types[i]@), "credit card"@) ==> some_type_contains(types, "credit card"@));
        assert(has_substring(lowercase(types[i]@), "ssn"@) ==> some_type_contains(types, "ssn"@));
        assert(has_substring(lowercase(types[i]@), "social security"@) ==> some_type_contains(types, "social security"@));
        assert(has_substring(lowercase(types[i]@), "financial"@) ==> some_type_contains(types, "financial"@));
    }
}

/// Without critical data, personal data (a phone number among it) rates a
/// breach `High`, and only personal data does.
pub proof fn lemma_rating_high(types: Seq<String>)
    requires
        !names_critical_data(types),
    ensures
        (severity_rule(lowered(types)) == Severity::High) == names_personal_data(types),
        some_type_contains(types, "phone"@) ==> severity_rule(lowered(types)) == Severity::High,
{
    lemma_rating_critical(types);
    let ls = lowered(types);
    assert forall|i: int| 0 <= i < types.len() implies #[trigger] ls[i] == lowercase(types[i]@) by {}
    if names_personal_data(types) {
        if some_type_contains(types, "phone"@) {
            let i = choose|i: int| 0 <= i < types.len() && #[trigger] has_substring(lowercase(types[i]@), "phone"@);
            assert(high_term(ls[i]));
        } else if exists|i: int|
            0 <= i < types.len() && #[trigger] has_substring(lowercase(types[i]@), "address"@) && !has_substring(
                lowercase(types[i]@),
                "email"@,
            ) && !has_substring(lowercase(types[i]@), "ip address"@) {
            let i = choose|i: int|
                0 <= i < types.len() && #[trigger] has_substring(lowercase(types[i]@), "address"@) && !has_substring(
                    lowercase(types[i]@),
                    "email"@,
                ) && !has_substring(lowercase(types[i]@), "ip address"@);
            assert(high_term(ls[i]));
        } else if exists|i: int|
            0 <= i < types.len() && #[trigger] has_substring(lowercase(types[i]@), "name"@) && !has_substring(
                lowercase(types[i]@),
                "username"@,
            ) {
            let i = choose|i: int|
                0 <= i < types.len() && #[trigger] has_substring(lowercase(types[i]@), "name"@) && !has_substring(
                    lowercase(types[i]@),
                    "username"@,
                );
            assert(high_term(ls[i]));
        } else if some_type_contains(types, "dob"@) {
            let i = choose|i: int| 0 <= i < types.len() && #[trigger] has_substring(lowercase(types[i]@), "dob"@);
            assert(high_term(ls[i]));
        } else if some_type_contains(types, "date of birth"@) {
            let i = choose|i: int| 0 <= i < types.len() && #[trigger] has_substring(lowercase(types[i]@), "date of birth"@);
            assert(high_term(ls[i]));
        } else if some_type_contains(types, "passport"@) {
            let i = choose|i: int| 0 <= i < types.len() && #[trigger] has_substring(lowercase(types[i]@), "passport"@);
            assert(high_term(ls[i]));
        } else {
            let i = choose|i: int| 0 <= i < types.len() && #[trigger] has_substring(lowercase(types[i]@), "genetic"@);
            assert(high_term(ls[i]));
        }
    }
    if any_high(ls) {
        let i = choose|i: int| 0 <= i < ls.len() && #[trigger] high_term(ls[i]);
        let d = lowercase(types[i]@);
        assert(has_substring(d, "phone"@) ==> some_type_contains(types, "phone"@));
        assert(has_substring(d, "dob"@) ==> some_type_contains(types, "dob"@));
        assert(has_substring(d, "date of birth"@) ==> some_type_contains(types, "date of birth"@));
        assert(has_substring(d, "passport"@) ==> some_type_contains(types, "passport"@));
        assert(has_substring(d, "genetic"@) ==> some_type_contains(types, "genetic"@));
    }
}

/// Without critical or personal data, an email address or a username rates a
/// breach `Medium`; with none of these it is `Low`.
pub proof fn lemma_rating_medium_low(types: Seq<String>)
    requires
        !names_critical_data(types),
        !names_personal_data(types),
    ensures
        severity_rule(lowered(types)) == if some_type_contains(types, "email"@) || some_type_contains(types, "username"@) {
            Severity::Medium
        } else {
            Severity::Low
        },
{
    lemma_rating_high(types);
    let ls = lowered(types);
    assert forall|i: int| 0 <= i < types.len() implies #[trigger] ls[i] == lowercase(types[i]@) by {}
    if some_type_contains(types, "email"@) {
        let i = choose|i: int| 0 <= i < types.len() && #[trigger] has_substring(lowercase(types[i]@), "email"@);
        assert(medium_term(ls[i]));
    } else if some_type_contains(types, "username"@) {
        let i = choose|i: int| 0 <= i < types.len() && #[trigger] has_substring(lowercase(types[i]@), "username"@);
        assert(medium_term(ls[i]));
    }
    if any_medium(ls) {
        let i = choose|i: int| 0 <= i < ls.len() && #[trigger] medium_term(ls[i]);
        let d = lowercase(types[i]@);
        assert(has_substring(d, "email"@) ==> some_type_contains(types, "email"@));
        assert(has_substring(d, "username"@) ==> some_type_contains(types, "username"@));
    }
}

/// A lowered list has a type containing `w` exactly when the list of data
/// types has.
proof fn lemma_any_has_lowered(types: Seq<String>, w: Seq<char>)
    ensures
        any_has(lowered(types), w) == some_type_contains(types, w),
{
    let ls = lowered(types);
    if any_has(ls, w) {
        let i = choose|i: int| 0 <= i < ls.len() && #[trigger] has_substring(ls[i], w);
        assert(has_substring(lowercase(types[i]@), w));
    }
    if some_type_contains(types, w) {
        let i = choose|i: int| 0 <= i < types.len() && #[trigger] has_substring(lowercase(types[i]@), w);
        assert(has_substring(ls[i], w));
    }
}

/// An item of either part of a joined sequence is an item of the whole.
proof fn lemma_contains_joined<A>(a: Seq<A>, b: Seq<A>, x: A)
    ensures
        a.contains(x) ==> (a + b).contains(x),
        b.contains(x) ==> (a + b).contains(x),
{
    if a.contains(x) {
        let i = choose|i: int| 0 <= i < a.len() && a[i] == x;
        assert((a + b)[i] == x);
    }
    if b.contains(x) {
        let i = choose|i: int| 0 <= i < b.len() && b[i] == x;
        assert((a + b)[a.len() + i] == x);
    }
}

/// What each kind of breached data makes the advice hold: a password asks
/// to change it (critical) and to enable two-factor authentication (high);
/// card or financial data asks to check statements (critical) and to place
/// a fraud alert (high); an SSN asks to freeze credit (critical); a phone
/// number asks to watch for phishing calls (high); an address or a name asks
/// to monitor for identity theft (high); an email address asks to watch for
/// phishing emails (medium). With none of these, the one piece of advice is
/// to review the account settings (low).
pub proof fn lemma_advice_for_each_kind(name: Seq<char>, types: Seq<String>)
    ensures
        some_type_contains(types, "password"@) ==> action_rule(name, lowered(types)).contains(
            ("Change password for "@ + name + " and any sites sharing that password"@, Severity::Critical),
        ) && action_rule(name, lowered(types)).contains(
            ("Enable two-factor authentication where possible"@, Severity::High),
        ),
        some_type_contains(types, "credit card"@) || some_type_contains(types, "financial"@) ==> action_rule(
            name,
            lowered(types),
        ).contains(("Check bank/credit card statements for unauthorized charges ("@ + name + ")"@, Severity::Critical))
            && action_rule(name, lowered(types)).contains(
            ("Consider placing a fraud alert on your credit report"@, Severity::High),
        ),
        some_type_contains(types, "ssn"@) || some_type_contains(types, "social security"@) ==> action_rule(
            name,
            lowered(types),
        ).contains(("Freeze your credit at all three bureaus (Equifax, Experian, TransUnion)"@, Severity::Critical)),
        some_type_contains(types, "phone"@) ==> action_rule(name, lowered(types)).contains(
            ("Watch for phishing calls/texts referencing "@ + name + " data"@, Severity::High),
        ),
        some_type_contains(types, "address"@) || some_type_contains(types, "name"@) ==> action_rule(
            name,
            lowered(types),
        ).contains(("Monitor for identity theft attempts related to "@ + name, Severity::High)),
        some_type_contains(types, "email"@) ==> action_rule(name, lowered(types)).contains(
            ("Watch for targeted phishing emails referencing "@ + name, Severity::Medium),
        ),
        !some_type_contains(types, "password"@) && !some_type_contains(types, "credit card"@)
            && !some_type_contains(types, "financial"@) && !some_type_contains(types, "ssn"@)
            && !some_type_contains(types, "social security"@) && !some_type_contains(types, "phone"@)
            && !some_type_contains(types, "address"@) && !some_type_contains(types, "name"@)
            && !some_type_contains(types, "email"@) ==> action_rule(name, lowered(types)) == seq![
            ("Review your account settings at "@ + name, Severity::Low),
        ],
        action_rule(name, lowered(types)).len() == if some_type_contains(types, "password"@) || some_type_contains(
            types,
            "credit card"@,
        ) || some_type_contains(types, "financial"@) || some_type_contains(types, "ssn"@) || some_type_contains(
            types,
            "social security"@,
        ) || some_type_contains(types, "phone"@) || some_type_contains(types, "address"@) || some_type_contains(
            types,
            "name"@,
        ) || some_type_contains(types, "email"@) {
            (if some_type_contains(types, "password"@) { 2int } else { 0int }) + (if some_type_contains(
                types,
                "credit card"@,
            ) || some_type_contains(types, "financial"@) { 2int } else { 0int }) + (if some_type_contains(types, "ssn"@)
                || some_type_contains(types, "social security"@) { 1int } else { 0int }) + (if some_type_contains(
                types,
                "phone"@,
            ) { 1int } else { 0int }) + (if some_type_contains(types, "address"@) || some_type_contains(
                types,
                "name"@,
            ) { 1int } else { 0int }) + (if some_type_contains(types, "email"@) { 1int } else { 0int })
        } else {
            1int
        },
{
    let ls = lowered(types);
    lemma_any_has_lowered(types, "password"@);
    lemma_any_has_lowered(types, "credit card"@);
    lemma_any_has_lowered(types, "financial"@);
    lemma_any_has_lowered(types, "ssn"@);
    lemma_any_has_lowered(types, "social security"@);
    lemma_any_has_lowered(types, "phone"@);
    lemma_any_has_lowered(types, "address"@);
    lemma_any_has_lowered(types, "name"@);
    lemma_any_has_lowered(types, "email"@);
    let a1 = if any_has(ls, "password"@) {
        seq![
            ("Change password for "@ + name + " and any sites sharing that password"@, Severity::Critical),
            ("Enable two-factor authentication where possible"@, Severity::High),
        ]
    } else {
        seq![]
    };
    let a2 = if any_has(ls, "credit card"@) || any_has(ls, "financial"@) {
        seq![
            ("Check bank/credit card statements for unauthorized charges ("@ + name + ")"@, Severity::Critical),
            ("Consider placing a fraud alert on your credit report"@, Severity::High),
        ]
    } else {
        seq![]
    };
    let a3 = if any_has(ls, "ssn"@) || any_has(ls, "social security"@) {
        seq![("Freeze your credit at all three bureaus (Equifax, Experian, TransUnion)"@, Severity::Critical)]
    } else {
        seq![]
    };
    let a4 = if any_has(ls, "phone"@) {
        seq![("Watch for phishing calls/texts referencing "@ + name + " data"@, Severity::High)]
    } else {
        seq![]
    };
    let a5 = if any_has(ls, "address"@) || any_has(ls, "name"@) {
        seq![("Monitor for identity theft attempts related to "@ + name, Severity::High)]
    } else {
        seq![]
    };
    let a6 = if any_has(ls, "email"@) {
        seq![("Watch for targeted phishing emails referencing "@ + name, Severity::Medium)]
    } else {
        seq![]
    };
    let p2 = a1 + a2;
    let p3 = p2 + a3;
    let p4 = p3 + a4;
    let p5 = p4 + a5;
    let all = p5 + a6;
    assert(all.len() == a1.len() + a2.len() + a3.len() + a4.len() + a5.len() + a6.len());
    if all.len() > 0 {
        assert(action_rule(name, ls) == all);
        if a1.len() > 0 {
            assert(a1.contains(a1[0]) && a1.contains(a1[1]));
            lemma_contains_joined(a1, a2, a1[0]);
            lemma_contains_joined(a1, a2, a1[1]);
            lemma_contains_joined(p2, a3, a1[0]);
            lemma_contains_joined(p2, a3, a1[1]);
            lemma_contains_joined(p3, a4, a1[0]);
            lemma_contains_joined(p3, a4, a1[1]);
            lemma_contains_joined(p4, a5, a1[0]);
            lemma_contains_joined(p4, a5, a1[1]);
            lemma_contains_joined(p5, a6, a1[0]);
            lemma_contains_joined(p5, a6, a1[1]);
        }
        if a2.len() > 0 {
            assert(a2.contains(a2[0]) && a2.contains(a2[1]));
            lemma_contains_joined(a1, a2, a2[0]);
            lemma_contains_joined(a1, a2, a2[1]);
            lemma_contains_joined(p2, a3, a2[0]);
            lemma_contains_joined(p2, a3, a2[1]);
            lemma_contains_joined(p3, a4, a2[0]);
            lemma_contains_joined(p3, a4, a2[1]);
            lemma_contains_joined(p4, a5, a2[0]);
            lemma_contains_joined(p4, a5, a2[1]);
            lemma_contains_joined(p5, a6, a2[0]);
            lemma_contains_joined(p5, a6, a2[1]);
        }
        if a3.len() > 0 {
            assert(a3.contains(a3[0]));
            lemma_contains_joined(p2, a3, a3[0]);
            lemma_contains_joined(p3, a4, a3[0]);
            lemma_contains_joined(p4, a5, a3[0]);
            lemma_contains_joined(p5, a6, a3[0]);
        }
        if a4.len() > 0 {
            assert(a4.contains(a4[0]));
            lemma_contains_joined(p3, a4, a4[0]);
            lemma_contains_joined(p4, a5, a4[0]);
            lemma_contains_joined(p5, a6, a4[0]);
        }
        if a5.len() > 0 {
            assert(a5.contains(a5[0]));
            lemma_contains_joined(p4, a5, a5[0]);
            lemma_contains_joined(p5, a6, a5[0]);
        }
        if a6.len() > 0 {
            assert(a6.contains(a6[0]));
            lemma_contains_joined(p5, a6, a6[0]);
        }
    }
}

/// The escape sequence that ends a colored span of terminal text.
pub open spec fn ansi_reset() -> Seq<char> {
    seq!['\x1b', '[', '0', 'm']
}

/// `s` wrapped in the terminal escape sequences for the display code `code`.
pub open spec fn ansi_painted(code: Seq<char>, s: Seq<char>) -> Seq<char> {
    seq!['\x1b', '['] + code + seq!['m'] + s + ansi_reset()
}

/// What `colored` renders: the text unchanged when coloring is off in this
/// process (by environment or override), else the text wrapped for `code`.
pub open spec fn painted_or_plain(r: Seq<char>, code: Seq<char>, s: Seq<char>) -> bool {
    r == s || r == ansi_painted(code, s)
}

/// The display code of a severity's color: blue, yellow, red, bold red.
pub open spec fn severity_color_code(s: Severity) -> Seq<char> {
    match s {
        Severity::Low => seq!['3', '4'],
        Severity::Medium => seq!['3', '3'],
        Severity::High => seq!['3', '1'],
        Severity::Critical => seq!['1', ';', '3', '1'],
    }
}

/// Renders `s.blue()` of `colored` to a string. Claimed, from the crate's
/// `Display` for `ColoredString`: plain text when coloring is off, else the
/// text between `ESC[34m` and `ESC[0m`. Whether coloring is on depends on the
/// environment and is not stated.
#[verifier::external_body]
fn paint_blue(s: &str) -> (r: String)
    requires
        !has_substring(s@, ansi_reset()),
    ensures
        painted_or_plain(r@, seq!['3', '4'], s@),
{
    s.blue().to_string()
}

/// Renders `s.yellow()` of `colored` to a string: plain, or between `ESC[33m`
/// and `ESC[0m`; which of the two depends on the environment.
#[verifier::external_body]
fn paint_yellow(s: &str) -> (r: String)
    requires
        !has_substring(s@, ansi_reset()),
    ensures
        painted_or_plain(r@, seq!['3', '3'], s@),
{
    s.yellow().to_string()
}

/// Renders `s.red()` of `colored` to a string: plain, or between `ESC[31m`
/// and `ESC[0m`; which of the two depends on the environment.
#[verifier::external_body]
fn paint_red(s: &str) -> (r: String)
    requires
        !has_substring(s@, ansi_reset()),
    ensures
        painted_or_plain(r@, seq!['3', '1'], s@),
{
    s.red().to_string()
}

/// Renders `s.red().bold()` of `colored` to a string: plain, or between
/// `ESC[1;31m` and `ESC[0m`; which of the two depends on the environment.
#[verifier::external_body]
fn paint_red_bold(s: &str) -> (r: String)
    requires
        !has_substring(s@, ansi_reset()),
    ensures
        painted_or_plain(r@, seq!['1', ';', '3', '1'], s@),
{
    s.red().bold().to_string()
}

proof fn lemma_label_has_no_reset(s: Severity)
    ensures
        !has_substring(severity_label(s), ansi_reset()),
{
    reveal_strlit("LOW");
    reveal_strlit("MEDIUM");
    reveal_strlit("HIGH");
    reveal_strlit("CRITICAL");
    let l = severity_label(s);
    assert forall|i: int| !#[trigger] occurs_at(l, ansi_reset(), i) by {
        if occurs_at(l, ansi_reset(), i) {
            assert(l.subrange(i, i + 4)[0] == l[i]);
        }
    }
}

impl Severity {
    /// The label of this severity as terminal text in its color.
    pub fn colored_str(&self) -> (r: String)
        ensures
            painted_or_plain(r@, severity_color_code(*self), severity_label(*self)),
    {
        proof {
            lemma_label_has_no_reset(*self);
        }
        match self {
            Severity::Low => paint_blue("LOW"),
            Severity::Medium => paint_yellow("MEDIUM"),
            Severity::High => paint_red("HIGH"),
            Severity::Critical => paint_red_bold("CRITICAL"),
        }
    }
}

} // verus!
