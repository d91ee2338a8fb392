//! The built-in table of major data breaches, and the search over it.
use vstd::prelude::*;
use crate::text::{
    ascii_lower, chars_of, find_char, first_at, is_ascii_chars, lowercase, slice_chars, str_eq, string_of, to_lowercase,
};

verus! {

/// Information about a known data breach.
#[derive(Debug)]
pub struct BreachInfo {
    pub name: &'static str,
    pub domain: &'static str,
    pub date: &'static str,
    pub data_types: Vec<&'static str>,
    pub accounts_affected: u64,
}

/// A breach as plain values.
pub struct BreachView {
    pub name: Seq<char>,
    pub domain: Seq<char>,
    pub date: Seq<char>,
    pub data_types: Seq<Seq<char>>,
    pub accounts_affected: u64,
}

impl View for BreachInfo {
    type V = BreachView;

    open spec fn view(&self) -> BreachView {
        BreachView {
            name: self.name@,
            domain: self.domain@,
            date: self.date@,
            data_types: self.data_types@.map_values(|t: &'static str| t@),
            accounts_affected: self.accounts_affected,
        }
    }
}

impl Clone for BreachInfo {
    fn clone(&self) -> (r: Self)
        ensures
            r@ == self@,
    {
        let mut types: Vec<&'static str> = Vec::new();
        let mut i: usize = 0;
        while i < self.data_types.len()
            invariant
                i <= self.data_types@.len(),
                types@ == self.data_types@.take(i as int),
            decreases self.data_types.len() - i,
        {
            types.push(self.data_types[i]);
            assert(self.data_types@.take(i + 1) =~= self.data_types@.take(i as int).push(self.data_types@[i as int]));
            i += 1;
        }
        assert(self.data_types@.take(self.data_types@.len() as int) =~= self.data_types@);
        BreachInfo {
            name: self.name,
            domain: self.domain,
            date: self.date,
            data_types: types,
            accounts_affected: self.accounts_affected,
        }
    }
}

/// The views of a list of breaches.
pub open spec fn breaches_view(v: Seq<BreachInfo>) -> Seq<BreachView> {
    v.map_values(|b: BreachInfo| b@)
}

/// A breach with these fields.
pub open spec fn breach(
    name: Seq<char>,
    domain: Seq<char>,
    date: Seq<char>,
    data_types: Seq<Seq<char>>,
    accounts_affected: u64,
) -> BreachView {
    BreachView { name, domain, date, data_types, accounts_affected }
}

/// The built-in breach table, in order.
pub open spec fn breach_table() -> Seq<BreachView> {
    seq![
        breach("Adobe"@, "adobe.com"@, "2013-10-04"@, seq!["Email addresses"@, "Passwords"@, "Usernames"@, "Password hints"@], 153_000_000),
        breach("LinkedIn"@, "linkedin.com"@, "2012-05-05"@, seq!["Email addresses"@, "Passwords"@], 164_000_000),
        breach("Yahoo"@, "yahoo.com"@, "2013-08-01"@, seq!["Email addresses"@, "Passwords"@, "Names"@, "Phone numbers"@, "Dates of birth"@, "Security questions"@], 3_000_000_000),
        breach("Facebook"@, "facebook.com"@, "2019-04-01"@, seq!["Email addresses"@, "Phone numbers"@, "Names"@, "Dates of birth"@, "Locations"@], 533_000_000),
        breach("Equifax"@, "equifax.com"@, "2017-09-07"@, seq!["Names"@, "SSN"@, "Dates of birth"@, "Addresses"@, "Credit card numbers"@], 147_000_000),
        breach("Marriott/Starwood"@, "marriott.com"@, "2018-11-30"@, seq!["Email addresses"@, "Names"@, "Phone numbers"@, "Passport numbers"@, "Credit card numbers"@], 500_000_000),
        breach("MySpace"@, "myspace.com"@, "2008-07-01"@, seq!["Email addresses"@, "Passwords"@, "Usernames"@], 360_000_000),
        breach("Dropbox"@, "dropbox.com"@, "2012-07-01"@, seq!["Email addresses"@, "Passwords"@], 68_000_000),
        breach("Twitter"@, "twitter.com"@, "2022-01-01"@, seq!["Email addresses"@, "Phone numbers"@, "Names"@, "Usernames"@], 200_000_000),
        breach("Canva"@, "canva.com"@, "2019-05-24"@, seq!["Email addresses"@, "Passwords"@, "Names"@, "Usernames"@], 137_000_000),
        breach("Zynga"@, "zynga.com"@, "2019-09-01"@, seq!["Email addresses"@, "Passwords"@, "Usernames"@, "Phone numbers"@], 173_000_000),
        breach("Capital One"@, "capitalone.com"@, "2019-07-29"@, seq!["Names"@, "Addresses"@, "Phone numbers"@, "SSN"@, "Credit card numbers"@, "Financial data"@], 106_000_000),
        breach("Dubsmash"@, "dubsmash.com"@, "2018-12-01"@, seq!["Email addresses"@, "Passwords"@, "Usernames"@], 162_000_000),
        breach("Under Armour / MyFitnessPal"@, "myfitnesspal.com"@, "2018-02-01"@, seq!["Email addresses"@, "Passwords"@, "Usernames"@, "IP addresses"@], 150_000_000),
        breach("Exactis"@, "exactis.com"@, "2018-06-01"@, seq!["Email addresses"@, "Names"@, "Addresses"@, "Phone numbers"@], 340_000_000),
        breach("T-Mobile"@, "t-mobile.com"@, "2021-08-17"@, seq!["Names"@, "SSN"@, "Dates of birth"@, "Phone numbers"@, "Addresses"@], 77_000_000),
        breach("Twitch"@, "twitch.tv"@, "2021-10-06"@, seq!["Email addresses"@, "Passwords"@, "Financial data"@], 5_000_000),
        breach("Uber"@, "uber.com"@, "2016-10-01"@, seq!["Email addresses"@, "Names"@, "Phone numbers"@], 57_000_000),
        breach("LastPass"@, "lastpass.com"@, "2022-12-01"@, seq!["Email addresses"@, "Passwords"@, "Names"@, "Billing addresses"@], 33_000_000),
        breach("Anthem"@, "anthem.com"@, "2015-02-04"@, seq!["Names"@, "SSN"@, "Dates of birth"@, "Addresses"@, "Email addresses"@], 78_800_000),
        breach("eBay"@, "ebay.com"@, "2014-05-01"@, seq!["Email addresses"@, "Passwords"@, "Names"@, "Addresses"@, "Phone numbers"@, "Dates of birth"@], 145_000_000),
        breach("MOVEit"@, "moveit.com"@, "2023-06-01"@, seq!["Names"@, "SSN"@, "Financial data"@, "Addresses"@], 77_000_000),
        breach("23andMe"@, "23andme.com"@, "2023-10-01"@, seq!["Names"@, "Dates of birth"@, "Genetic data"@, "Locations"@], 6_900_000),
        breach("Ticketmaster"@, "ticketmaster.com"@, "2024-05-01"@, seq!["Names"@, "Email addresses"@, "Credit card numbers"@, "Addresses"@], 560_000_000),
    ]
}

/// The built-in database of major breaches, in the order of `breach_table`.
#[verifier::rlimit(60)]
pub fn build_breach_db() -> (r: Vec<BreachInfo>)
    ensures
        breaches_view(r@) == breach_table(),
{
    let mut db: Vec<BreachInfo> = Vec::new();
    let b = BreachInfo {
        name: "Adobe",
        domain: "adobe.com",
        date: "2013-10-04",
        data_types: vec!["Email addresses", "Passwords", "Usernames", "Password hints"],
        accounts_affected: 153_000_000,
    };
    assert(b@.data_types =~= seq!["Email addresses"@, "Passwords"@, "Usernames"@, "Password hints"@]);
    db.push(b);
    let b = BreachInfo {
        name: "LinkedIn",
        domain: "linkedin.com",
        date: "2012-05-05",
        data_types: vec!["Email addresses", "Passwords"],
        accounts_affected: 164_000_000,
    };
    assert(b@.data_types =~= seq!["Email addresses"@, "Passwords"@]);
    db.push(b);
    let b = BreachInfo {
        name: "Yahoo",
        domain: "yahoo.com",
        date: "2013-08-01",
        data_types: vec!["Email addresses", "Passwords", "Names", "Phone numbers", "Dates of birth", "Security questions"],
        accounts_affected: 3_000_000_000,
    };
    assert(b@.data_types =~= seq!["Email addresses"@, "Passwords"@, "Names"@, "Phone numbers"@, "Dates of birth"@, "Security questions"@]);
    db.push(b);
    let b = BreachInfo {
        name: "Facebook",
        domain: "facebook.com",
        date: "2019-04-01",
        data_types: vec!["Email addresses", "Phone numbers", "Names", "Dates of birth", "Locations"],
        accounts_affected: 533_000_000,
    };
    assert(b@.data_types =~= seq!["Email addresses"@, "Phone numbers"@, "Names"@, "Dates of birth"@, "Locations"@]);
    db.push(b);
    let b = BreachInfo {
        name: "Equifax",
        domain: "equifax.com",
        date: "2017-09-07",
        data_types: vec!["Names", "SSN", "Dates of birth", "Addresses", "Credit card numbers"],
        accounts_affected: 147_000_000,
    };
    assert(b@.data_types =~= seq!["Names"@, "SSN"@, "Dates of birth"@, "Addresses"@, "Credit card numbers"@]);
    db.push(b);
    let b = BreachInfo {
        name: "Marriott/Starwood",
        domain: "marriott.com",
        date: "2018-11-30",
        data_types: vec!["Email addresses", "Names", "Phone numbers", "Passport numbers", "Credit card numbers"],
        accounts_affected: 500_000_000,
    };
    assert(b@.data_types =~= seq!["Email addresses"@, "Names"@, "Phone numbers"@, "Passport numbers"@, "Credit card numbers"@]);
    db.push(b);
    let b = BreachInfo {
        name: "MySpace",
        domain: "myspace.com",
        date: "2008-07-01",
        data_types: vec!["Email addresses", "Passwords", "Usernames"],
        accounts_affected: 360_000_000,
    };
    assert(b@.data_types =~= seq!["Email addresses"@, "Passwords"@, "Usernames"@]);
    db.push(b);
    let b = BreachInfo {
        name: "Dropbox",
        domain: "dropbox.com",
        date: "2012-07-01",
        data_types: vec!["Email addresses", "Passwords"],
        accounts_affected: 68_000_000,
    };
    assert(b@.data_types =~= seq!["Email addresses"@, "Passwords"@]);
    db.push(b);
    let b = BreachInfo {
        name: "Twitter",
        domain: "twitter.com",
        date: "2022-01-01",
        data_types: vec!["Email addresses", "Phone numbers", "Names", "Usernames"],
        accounts_affected: 200_000_000,
    };
    assert(b@.data_types =~= seq!["Email addresses"@, "Phone numbers"@, "Names"@, "Usernames"@]);
    db.push(b);
    let b = BreachInfo {
        name: "Canva",
        domain: "canva.com",
        date: "2019-05-24",
        data_types: vec!["Email addresses", "Passwords", "Names", "Usernames"],
        accounts_affected: 137_000_000,
    };
    assert(b@.data_types =~= seq!["Email addresses"@, "Passwords"@, "Names"@, "Usernames"@]);
    db.push(b);
    let b = BreachInfo {
        name: "Zynga",
        domain: "zynga.com",
        date: "2019-09-01",
        data_types: vec!["Email addresses", "Passwords", "Usernames", "Phone numbers"],
        accounts_affected: 173_000_000,
    };
    assert(b@.data_types =~= seq!["Email addresses"@, "Passwords"@, "Usernames"@, "Phone numbers"@]);
    db.push(b);
    let b = BreachInfo {
        name: "Capital One",
        domain: "capitalone.com",
        date: "2019-07-29",
        data_types: vec!["Names", "Addresses", "Phone numbers", "SSN", "Credit card numbers", "Financial data"],
        accounts_affected: 106_000_000,
    };
    assert(b@.data_types =~= seq!["Names"@, "Addresses"@, "Phone numbers"@, "SSN"@, "Credit card numbers"@, "Financial data"@]);
    db.push(b);
    let b = BreachInfo {
        name: "Dubsmash",
        domain: "dubsmash.com",
        date: "2018-12-01",
        data_types: vec!["Email addresses", "Passwords", "Usernames"],
        accounts_affected: 162_000_000,
    };
    assert(b@.data_types =~= seq!["Email addresses"@, "Passwords"@, "Usernames"@]);
    db.push(b);
    let b = BreachInfo {
        name: "Under Armour / MyFitnessPal",
        domain: "myfitnesspal.com",
        date: "2018-02-01",
        data_types: vec!["Email addresses", "Passwords", "Usernames", "IP addresses"],
        accounts_affected: 150_000_000,
    };
    assert(b@.data_types =~= seq!["Email addresses"@, "Passwords"@, "Usernames"@, "IP addresses"@]);
    db.push(b);
    let b = BreachInfo {
        name: "Exactis",
        domain: "exactis.com",
        date: "2018-06-01",
        data_types: vec!["Email addresses", "Names", "Addresses", "Phone numbers"],
        accounts_affected: 340_000_000,
    };
    assert(b@.data_types =~= seq!["Email addresses"@, "Names"@, "Addresses"@, "Phone numbers"@]);
    db.push(b);
    let b = BreachInfo {
        name: "T-Mobile",
        domain: "t-mobile.com",
        date: "2021-08-17",
        data_types: vec!["Names", "SSN", "Dates of birth", "Phone numbers", "Addresses"],
        accounts_affected: 77_000_000,
    };
    assert(b@.data_types =~= seq!["Names"@, "SSN"@, "Dates of birth"@, "Phone numbers"@, "Addresses"@]);
    db.push(b);
    let b = BreachInfo {
        name: "Twitch",
        domain: "twitch.tv",
        date: "2021-10-06",
        data_types: vec!["Email addresses", "Passwords", "Financial data"],
        accounts_affected: 5_000_000,
    };
    assert(b@.data_types =~= seq!["Email addresses"@, "Passwords"@, "Financial data"@]);
    db.push(b);
    let b = BreachInfo {
        name: "Uber",
        domain: "uber.com",
        date: "2016-10-01",
        data_types: vec!["Email addresses", "Names", "Phone numbers"],
        accounts_affected: 57_000_000,
    };
    assert(b@.data_types =~= seq!["Email addresses"@, "Names"@, "Phone numbers"@]);
    db.push(b);
    let b = BreachInfo {
        name: "LastPass",
        domain: "lastpass.com",
        date: "2022-12-01",
        data_types: vec!["Email addresses", "Passwords", "Names", "Billing addresses"],
        accounts_affected: 33_000_000,
    };
    assert(b@.data_types =~= seq!["Email addresses"@, "Passwords"@, "Names"@, "Billing addresses"@]);
    db.push(b);
    let b = BreachInfo {
        name: "Anthem",
        domain: "anthem.com",
        date: "2015-02-04",
        data_types: vec!["Names", "SSN", "Dates of birth", "Addresses", "Email addresses"],
        accounts_affected: 78_800_000,
    };
    assert(b@.data_types =~= seq!["Names"@, "SSN"@, "Dates of birth"@, "Addresses"@, "Email addresses"@]);
    db.push(b);
    let b = BreachInfo {
        name: "eBay",
        domain: "ebay.com",
        date: "2014-05-01",
        data_types: vec!["Email addresses", "Passwords", "Names", "Addresses", "Phone numbers", "Dates of birth"],
        accounts_affected: 145_000_000,
    };
    assert(b@.data_types =~= seq!["Email addresses"@, "Passwords"@, "Names"@, "Addresses"@, "Phone numbers"@, "Dates of birth"@]);
    db.push(b);
    let b = BreachInfo {
        name: "MOVEit",
        domain: "moveit.com",
        date: "2023-06-01",
        data_types: vec!["Names", "SSN", "Financial data", "Addresses"],
        accounts_affected: 77_000_000,
    };
    assert(b@.data_types =~= seq!["Names"@, "SSN"@, "Financial data"@, "Addresses"@]);
    db.push(b);
    let b = BreachInfo {
        name: "23andMe",
        domain: "23andme.com",
        date: "2023-10-01",
        data_types: vec!["Names", "Dates of birth", "Genetic data", "Locations"],
        accounts_affected: 6_900_000,
    };
    assert(b@.data_types =~= seq!["Names"@, "Dates of birth"@, "Genetic data"@, "Locations"@]);
    db.push(b);
    let b = BreachInfo {
        name: "Ticketmaster",
        domain: "ticketmaster.com",
        date: "2024-05-01",
        data_types: vec!["Names", "Email addresses", "Credit card numbers", "Addresses"],
        accounts_affected: 560_000_000,
    };
    assert(b@.data_types =~= seq!["Names"@, "Email addresses"@, "Credit card numbers"@, "Addresses"@]);
    db.push(b);
    assert(breaches_view(db@) =~= breach_table());
    db
}

/// The text up to the first `c` in `s`, or all of `s` when it has none.
pub open spec fn up_to_char(s: Seq<char>, c: char) -> Seq<char> {
    if exists|i: int| first_at(s, c, i) {
        s.take(choose|i: int| first_at(s, c, i))
    } else {
        s
    }
}

/// The second field of `s` split at `c` (as `s.split(c).nth(1)`), or the
/// empty text when `s` holds no `c`.
pub open spec fn second_field(s: Seq<char>, c: char) -> Seq<char> {
    if exists|i: int| first_at(s, c, i) {
        up_to_char(s.skip((choose|i: int| first_at(s, c, i)) + 1), c)
    } else {
        seq![]
    }
}

/// The lowered domain part of an email address: the text between its first and
/// second `@`, lowered.
pub open spec fn email_domain(email: Seq<char>) -> Seq<char> {
    lowercase(second_field(email, '@'))
}

/// The domains of platforms on which nearly everyone has an account.
pub open spec fn common_breach_domains() -> Seq<Seq<char>> {
    seq!["linkedin.com"@, "facebook.com"@, "twitter.com"@, "adobe.com"@, "dropbox.com"@, "canva.com"@]
}

/// A breach concerns an address at `email_domain` when it is that domain's own
/// breach or one of a platform nearly everyone uses.
pub open spec fn breach_matches(b: BreachView, email_domain: Seq<char>) -> bool {
    b.domain == email_domain || common_breach_domains().contains(b.domain)
}

/// The table's breaches that concern an address at `email_domain`, in table order.
pub open spec fn breaches_for_domain(email_domain: Seq<char>) -> Seq<BreachView> {
    breach_table().filter(|b: BreachView| breach_matches(b, email_domain))
}

proof fn lemma_first_at_unique(s: Seq<char>, c: char, i: int, j: int)
    requires
        first_at(s, c, i),
        first_at(s, c, j),
    ensures
        i == j,
{
}

/// The second `@`-separated field of an email address, as characters.
fn email_domain_chars(email: &Vec<char>) -> (r: Vec<char>)
    ensures
        r@ == second_field(email@, '@'),
{
    match find_char(email, '@', 0) {
        None => {
            assert(!exists|i: int| first_at(email@, '@', i));
            Vec::new()
        },
        Some(i) => {
            assert(first_at(email@, '@', i as int));
            let ghost i0 = choose|i: int| first_at(email@, '@', i);
            proof {
                lemma_first_at_unique(email@, '@', i as int, i0);
            }
            let n = email.len();
            assert(i < n);
            let ghost rest = email@.skip(i + 1);
            match find_char(email, '@', i + 1) {
                None => {
                    assert(!exists|j: int| first_at(rest, '@', j)) by {
                        if exists|j: int| first_at(rest, '@', j) {
                            let j = choose|j: int| first_at(rest, '@', j);
                            assert(email@[i + 1 + j] == '@');
                        }
                    }
                    let r = slice_chars(email, i + 1, email.len());
                    assert(r@ =~= rest);
                    r
                },
                Some(j) => {
                    let ghost jr = j - (i + 1);
                    assert(first_at(rest, '@', jr)) by {
                        assert forall|k: int| 0 <= k < jr implies rest[k] != '@' by {
                            assert(rest[k] == email@[i + 1 + k]);
                        }
                    }
                    let ghost j0 = choose|j: int| first_at(rest, '@', j);
                    proof {
                        lemma_first_at_unique(rest, '@', jr, j0);
                    }
                    let r = slice_chars(email, i + 1, j);
                    assert(r@ =~= rest.take(jr));
                    r
                },
            }
        },
    }
}

/// Whether `domain` is one of the common breach domains.
fn is_common_breach_domain(domain: &str) -> (r: bool)
    ensures
        r == common_breach_domains().contains(domain@),
{
    let common: Vec<&'static str> = vec!["linkedin.com", "facebook.com", "twitter.com", "adobe.com", "dropbox.com", "canva.com"];
    assert(common@.map_values(|t: &'static str| t@) =~= common_breach_domains());
    let mut i: usize = 0;
    while i < common.len()
        invariant
            i <= common@.len(),
            common@.map_values(|t: &'static str| t@) == common_breach_domains(),
            forall|k: int| 0 <= k < i ==> common_breach_domains()[k] != domain@,
        decreases common.len() - i,
    {
        if str_eq(common[i], domain) {
            assert(common_breach_domains()[i as int] == domain@);
            return true;
        }
        i += 1;
    }
    false
}

/// The text between the first and the second `@` of an email address (the
/// whole rest when there is one `@`; empty when there is none).
pub fn email_domain_field(email: &str) -> (r: String)
    ensures
        r@ == second_field(email@, '@'),
{
    let email_chars = chars_of(email);
    string_of(&email_domain_chars(&email_chars))
}

/// The table's breaches that concern an address at the (lowered) domain
/// `email_domain`: that domain's own and those of platforms nearly everyone
/// uses, in table order.
pub fn breaches_for_email_domain(email_domain: &str) -> (r: Vec<BreachInfo>)
    ensures
        breaches_view(r@) == breaches_for_domain(email_domain@),
{
    let ghost d = email_domain@;
    let ghost pred = |b: BreachView| breach_matches(b, d);
    let db = build_breach_db();
    let mut out: Vec<BreachInfo> = Vec::new();
    let mut i: usize = 0;
    while i < db.len()
        invariant
            email_domain@ == d,
            i <= db@.len(),
            breaches_view(db@) == breach_table(),
            pred == (|b: BreachView| breach_matches(b, d)),
            breaches_view(out@) == breach_table().take(i as int).filter(pred),
        decreases db.len() - i,
    {
        let b = &db[i];
        assert(breach_table()[i as int] == b@);
        let hit = str_eq(b.domain, email_domain) || is_common_breach_domain(b.domain);
        proof {
            reveal_with_fuel(Seq::<_>::filter, 1);
            assert(breach_table().take(i + 1).drop_last() =~= breach_table().take(i as int));
        }
        if hit {
            out.push(b.clone());
            assert(breaches_view(out@) =~= breach_table().take(i + 1).filter(pred));
        } else {
            assert(breaches_view(out@) =~= breach_table().take(i + 1).filter(pred));
        }
        i += 1;
    }
    assert(breach_table().take(db@.len() as int) =~= breach_table());
    out
}

/// The table's breaches that concern the given email address: those of its
/// own domain and those of platforms nearly everyone uses, in table order.
pub fn find_breaches_for_email(email: &str) -> (r: Vec<BreachInfo>)
    ensures
        breaches_view(r@) == breaches_for_domain(email_domain(email@)),
        is_ascii_chars(email@) ==> breaches_view(r@) == breaches_for_domain(
            second_field(email@, '@').map_values(|c: char| ascii_lower(c)),
        ),
{
    let field = email_domain_field(email);
    proof {
        if is_ascii_chars(email@) {
            lemma_second_field_ascii(email@, '@');
        }
    }
    let domain = to_lowercase(field.as_str());
    breaches_for_email_domain(domain.as_str())
}

/// The second field of ASCII text is ASCII.
proof fn lemma_second_field_ascii(s: Seq<char>, c: char)
    requires
        is_ascii_chars(s),
    ensures
        is_ascii_chars(second_field(s, c)),
{
    if exists|i: int| first_at(s, c, i) {
        let i = choose|i: int| first_at(s, c, i);
        let rest = s.skip(i + 1);
        assert forall|k: int| 0 <= k < second_field(s, c).len() implies (#[trigger] second_field(s, c)[k] as int) < 128 by {
            if exists|j: int| first_at(rest, c, j) {
                let j = choose|j: int| first_at(rest, c, j);
                assert(second_field(s, c)[k] == rest[k]);
            }
            assert(rest[k] == s[i + 1 + k]);
        }
    }
}

/// Every address is told of at least one breach: the platforms nearly everyone
/// uses are always included.
pub proof fn lemma_every_email_has_breaches(email: Seq<char>)
    ensures
        breaches_for_domain(email_domain(email)).len() >= 1,
{
    let d = email_domain(email);
    let pred = |b: BreachView| breach_matches(b, d);
    assert(common_breach_domains()[0] == breach_table()[1].domain);
    assert(pred(breach_table()[1]));
    breach_table().lemma_filter_contains(pred, 1);
}

/// What the search returns is exactly the table's breaches that match the
/// address's domain: each returned breach is in the table and matches, and
/// each matching breach of the table is returned.
pub proof fn lemma_breach_search_sound_and_complete(email: Seq<char>)
    ensures
        forall|j: int|
            0 <= j < breaches_for_domain(email_domain(email)).len() ==> breach_table().contains(
                #[trigger] breaches_for_domain(email_domain(email))[j],
            ) && breach_matches(breaches_for_domain(email_domain(email))[j], email_domain(email)),
        forall|i: int|
            0 <= i < breach_table().len() && breach_matches(
                #[trigger] breach_table()[i],
                email_domain(email),
            ) ==> breaches_for_domain(email_domain(email)).contains(breach_table()[i]),
{
    let d = email_domain(email);
    let pred = |b: BreachView| breach_matches(b, d);
    let out = breach_table().filter(pred);
    assert forall|j: int| 0 <= j < out.len() implies breach_table().contains(#[trigger] out[j])
        && breach_matches(out[j], d) by {
        breach_table().lemma_filter_pred(pred, j);
        assert(out.contains(out[j]));
        breach_table().lemma_filter_contains_rev(pred, out[j]);
    }
    assert forall|i: int| 0 <= i < breach_table().len() && breach_matches(#[trigger] breach_table()[i], d)
        implies out.contains(breach_table()[i]) by {
        breach_table().lemma_filter_contains(pred, i);
    }
}

} // verus!
