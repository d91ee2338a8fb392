//! The built-in database of tracker domains and the lookup over it.
use vstd::prelude::*;
use crate::text::{
    ascii_lower, chars_eq, chars_of, is_ascii_chars, last_dot, lemma_ascii_lower_twice, lowercase, slice_chars, to_lowercase,
};

verus! {

/// Category of tracking behavior.
#[derive(Debug, Clone, Copy, PartialEq, Eq, Structural, Hash)]
pub enum TrackerCategory {
    Advertising,
    Analytics,
    Social,
    Fingerprinting,
    Content,
}

/// The name under which a category is shown.
pub open spec fn category_label(c: TrackerCategory) -> Seq<char> {
    match c {
        TrackerCategory::Advertising => "Advertising"@,
        TrackerCategory::Analytics => "Analytics"@,
        TrackerCategory::Social => "Social"@,
        TrackerCategory::Fingerprinting => "Fingerprinting"@,
        TrackerCategory::Content => "Content"@,
    }
}

impl TrackerCategory {
    /// The name of this category.
    pub fn as_str(&self) -> (r: &'static str)
        ensures
            r@ == category_label(*self),
    {
        match self {
            TrackerCategory::Advertising => "Advertising",
            TrackerCategory::Analytics => "Analytics",
            TrackerCategory::Social => "Social",
            TrackerCategory::Fingerprinting => "Fingerprinting",
            TrackerCategory::Content => "Content",
        }
    }

    /// The name of this category, as an owned string.
    pub fn to_string(&self) -> (r: String)
        ensures
            r@ == category_label(*self),
    {
        String::from_str(self.as_str())
    }
}

/// Information about a known tracker.
#[derive(Debug, Clone, Copy)]
pub struct TrackerInfo {
    pub company: &'static str,
    pub category: TrackerCategory,
    pub description: &'static str,
}

/// `m` holds `v` for some domain.
pub open spec fn holds_value(m: Map<Seq<char>, TrackerInfo>, v: TrackerInfo) -> bool {
    exists|k: Seq<char>| #[trigger] m.contains_key(k) && m[k] == v
}

/// A map from tracker domains to what is known of them; no domain occurs twice.
pub struct TrackerDb {
    domains: Vec<&'static str>,
    infos: Vec<TrackerInfo>,
}

impl TrackerDb {
    /// The domains held, as character sequences.
    pub closed spec fn keys(&self) -> Seq<Seq<char>> {
        self.domains@.map_values(|d: &'static str| d@)
    }

    #[verifier::type_invariant]
    closed spec fn well_formed(self) -> bool {
        &&& self.domains@.len() == self.infos@.len()
        &&& self.keys().no_duplicates()
    }

    closed spec fn index_of_key(&self, k: Seq<char>) -> int {
        choose|i: int| 0 <= i < self.keys().len() && self.keys()[i] == k
    }
}

impl View for TrackerDb {
    type V = Map<Seq<char>, TrackerInfo>;

    closed spec fn view(&self) -> Map<Seq<char>, TrackerInfo> {
        Map::new(
            |k: Seq<char>| self.keys().contains(k),
            |k: Seq<char>| self.infos@[self.index_of_key(k)],
        )
    }
}

impl TrackerDb {
    proof fn lemma_index_of(&self, i: int)
        requires
            self.well_formed(),
            0 <= i < self.keys().len(),
        ensures
            self.index_of_key(self.keys()[i]) == i,
            self@.contains_key(self.keys()[i]),
            self@[self.keys()[i]] == self.infos@[i],
    {
        let k = self.keys()[i];
        assert(self.keys().contains(k));
        let j = self.index_of_key(k);
        assert(0 <= j < self.keys().len() && self.keys()[j] == k);
    }

    /// An empty database.
    pub fn new() -> (r: TrackerDb)
        ensures
            r@ == Map::<Seq<char>, TrackerInfo>::empty(),
    {
        let r = TrackerDb { domains: Vec::new(), infos: Vec::new() };
        assert(r.keys() =~= Seq::<Seq<char>>::empty());
        assert(r@ =~= Map::<Seq<char>, TrackerInfo>::empty());
        r
    }

    /// The number of domains held.
    pub fn len(&self) -> (r: usize)
        ensures
            r == self@.dom().len(),
    {
        proof {
            use_type_invariant(self);
            self.keys().unique_seq_to_set();
            assert(self@.dom() =~= self.keys().to_set());
        }
        self.domains.len()
    }

    /// The position of the domain with these characters, if held.
    fn position(&self, key: &Vec<char>) -> (r: Option<usize>)
        ensures
            match r {
                Some(i) => i < self.keys().len() && self.keys()[i as int] == key@,
                None => !self.keys().contains(key@),
            },
    {
        proof {
            use_type_invariant(self);
        }
        let mut i: usize = 0;
        while i < self.domains.len()
            invariant
                i <= self.domains@.len(),
                forall|j: int| 0 <= j < i ==> self.keys()[j] != key@,
            decreases self.domains.len() - i,
        {
            let d = chars_of(self.domains[i]);
            if chars_eq(&d, key) {
                return Some(i);
            }
            i += 1;
        }
        None
    }

    /// What is known of the domain with these characters, if it is held.
    pub fn get_chars(&self, key: &Vec<char>) -> (r: Option<&TrackerInfo>)
        ensures
            match r {
                Some(info) => self@.contains_key(key@) && *info == self@[key@],
                None => !self@.contains_key(key@),
            },
    {
        proof {
            use_type_invariant(self);
        }
        match self.position(key) {
            Some(i) => {
                proof {
                    self.lemma_index_of(i as int);
                }
                Some(&self.infos[i])
            },
            None => None,
        }
    }

    /// What is known of `domain`, if it is held (the name as given, unlowered).
    pub fn get(&self, domain: &str) -> (r: Option<&TrackerInfo>)
        ensures
            match r {
                Some(info) => self@.contains_key(domain@) && *info == self@[domain@],
                None => !self@.contains_key(domain@),
            },
    {
        let key = chars_of(domain);
        self.get_chars(&key)
    }

    /// What is known of each held domain, one entry per domain.
    pub fn values(&self) -> (r: Vec<TrackerInfo>)
        ensures
            r@ == self.keys().map_values(|k: Seq<char>| self@[k]),
            self.keys().no_duplicates(),
            self.keys().to_set() == self@.dom(),
            r@.len() == self@.dom().len(),
            forall|i: int| 0 <= i < r@.len() ==> #[trigger] holds_value(self@, r@[i]),
            forall|k: Seq<char>| #[trigger] self@.contains_key(k) ==> r@.contains(self@[k]),
    {
        proof {
            use_type_invariant(self);
            self.keys().unique_seq_to_set();
            assert(self@.dom() =~= self.keys().to_set());
        }
        let mut r: Vec<TrackerInfo> = Vec::new();
        let mut i: usize = 0;
        while i < self.infos.len()
            invariant
                self.well_formed(),
                i <= self.infos@.len(),
                r@ == self.infos@.take(i as int),
            decreases self.infos.len() - i,
        {
            r.push(self.infos[i]);
            assert(self.infos@.take(i + 1) =~= self.infos@.take(i as int).push(self.infos@[i as int]));
            i += 1;
        }
        assert(self.infos@.take(self.infos@.len() as int) =~= self.infos@);
        proof {
            assert forall|i: int| 0 <= i < r@.len() implies r@[i] == self.keys().map_values(|k: Seq<char>| self@[k])[i] by {
                self.lemma_index_of(i);
            }
            assert(r@ =~= self.keys().map_values(|k: Seq<char>| self@[k]));
            assert forall|i: int| 0 <= i < r@.len() implies #[trigger] holds_value(self@, r@[i]) by {
                self.lemma_index_of(i);
                let k = self.keys()[i];
                assert(self@.contains_key(k) && self@[k] == r@[i]);
            }
            assert forall|k: Seq<char>| #[trigger] self@.contains_key(k) implies r@.contains(self@[k]) by {
                let j = self.index_of_key(k);
                assert(r@[j] == self@[k]);
            }
        }
        r
    }

    /// Each held domain with what is known of it, each domain once.
    pub fn entries(&self) -> (r: Vec<(&'static str, TrackerInfo)>)
        ensures
            r@.map_values(|e: (&'static str, TrackerInfo)| e.0@) == self.keys(),
            r@.len() == self@.dom().len(),
            forall|i: int| 0 <= i < r@.len() ==> #[trigger] self@.contains_key(r@[i].0@) && self@[r@[i].0@] == r@[i].1,
            forall|i: int, j: int| 0 <= i < j < r@.len() ==> (#[trigger] r@[i]).0@ != (#[trigger] r@[j]).0@,
            forall|k: Seq<char>| #[trigger] self@.contains_key(k) ==> exists|i: int| 0 <= i < r@.len() && #[trigger] r@[i].0@ == k,
    {
        proof {
            use_type_invariant(self);
            self.keys().unique_seq_to_set();
            assert(self@.dom() =~= self.keys().to_set());
        }
        let mut r: Vec<(&'static str, TrackerInfo)> = Vec::new();
        let mut i: usize = 0;
        while i < self.infos.len()
            invariant
                self.well_formed(),
                i <= self.infos@.len(),
                r@.len() == i,
                forall|k: int| 0 <= k < i ==> (#[trigger] r@[k]).0 == self.domains@[k] && r@[k].1 == self.infos@[k],
            decreases self.infos.len() - i,
        {
            r.push((self.domains[i], self.infos[i]));
            i += 1;
        }
        proof {
            assert forall|a: int| 0 <= a < r@.len() implies #[trigger] self@.contains_key(r@[a].0@) && self@[r@[a].0@] == r@[a].1 by {
                self.lemma_index_of(a);
                assert(self.keys()[a] == r@[a].0@);
            }
            assert forall|a: int, b: int| 0 <= a < b < r@.len() implies (#[trigger] r@[a]).0@ != (#[trigger] r@[b]).0@ by {
                assert(self.keys()[a] == r@[a].0@ && self.keys()[b] == r@[b].0@);
            }
            assert(r@.map_values(|e: (&'static str, TrackerInfo)| e.0@) =~= self.keys());
            assert forall|k: Seq<char>| #[trigger] self@.contains_key(k) implies exists|a: int| 0 <= a < r@.len() && #[trigger] r@[a].0@ == k by {
                let a = self.index_of_key(k);
                assert(self.keys().contains(k));
                assert(r@[a].0@ == self.keys()[a]);
            }
        }
        r
    }

    /// Adds `domain` with `info`, replacing what was held for it before.
    pub fn insert(&mut self, domain: &'static str, info: TrackerInfo)
        ensures
            final(self)@ == old(self)@.insert(domain@, info),
    {
        proof {
            use_type_invariant(&*self);
        }
        let key = chars_of(domain);
        let pos = self.position(&key);
        let ghost before = *self;
        let mut taken = TrackerDb { domains: Vec::new(), infos: Vec::new() };
        proof {
            assert(taken.keys() =~= Seq::<Seq<char>>::empty());
        }
        std::mem::swap(self, &mut taken);
        let TrackerDb { mut domains, mut infos } = taken;
        match pos {
            Some(i) => {
                infos.set(i, info);
            },
            None => {
                domains.push(domain);
                infos.push(info);
            },
        }
        proof {
            let ks = domains@.map_values(|d: &'static str| d@);
            match pos {
                Some(_) => {
                    assert(ks =~= before.keys());
                },
                None => {
                    assert(ks =~= before.keys().push(domain@));
                    assert(ks.no_duplicates());
                },
            }
        }
        let after = TrackerDb { domains, infos };
        proof {
            match pos {
                Some(i) => {
                    assert(after.keys() =~= before.keys());
                    assert forall|k: Seq<char>| #[trigger] after@.contains_key(k) implies after@[k]
                        == before@.insert(domain@, info)[k] by {
                        let j = after.index_of_key(k);
                        assert(after.keys().contains(k));
                        before.lemma_index_of(j);
                        if k == domain@ {
                            before.lemma_index_of(i as int);
                        }
                    }
                    assert(after@ =~= before@.insert(domain@, info));
                },
                None => {
                    assert(after.keys() =~= before.keys().push(domain@));
                    assert(after.keys().no_duplicates());
                    assert forall|k: Seq<char>| #[trigger] after@.contains_key(k) implies after@[k]
                        == before@.insert(domain@, info)[k] by {
                        let j = after.index_of_key(k);
                        assert(after.keys().contains(k));
                        after.lemma_index_of(j);
                        if k != domain@ {
                            let m = choose|m: int| 0 <= m < before.keys().len() && before.keys()[m] == k;
                            before.lemma_index_of(m);
                            after.lemma_index_of(m);
                        } else {
                            after.lemma_index_of(before.keys().len() as int);
                        }
                    }
                    assert(after@.dom() =~= before@.insert(domain@, info).dom()) by {
                        assert forall|k: Seq<char>| before@.contains_key(k) implies after@.contains_key(k) by {
                            let m = choose|m: int| 0 <= m < before.keys().len() && before.keys()[m] == k;
                            assert(after.keys()[m] == k);
                        }
                        assert(after.keys()[before.keys().len() as int] == domain@);
                    }
                    assert(after@ =~= before@.insert(domain@, info));
                },
            }
        }
        *self = after;
    }
}

/// The entry shared by one group of domains of the built-in database.
pub open spec fn tracker_info_0() -> TrackerInfo {
    TrackerInfo { company: "Google", category: TrackerCategory::Advertising, description: "Google advertising network" }
}

/// The entry shared by one group of domains of the built-in database.
pub open spec fn tracker_info_1() -> TrackerInfo {
    TrackerInfo { company: "Google", category: TrackerCategory::Analytics, description: "Google Analytics tracking" }
}

/// The entry shared by one group of domains of the built-in database.
pub open spec fn tracker_info_2() -> TrackerInfo {
    TrackerInfo { company: "Meta", category: TrackerCategory::Social, description: "Meta social tracking pixel" }
}

/// The entry shared by one group of domains of the built-in database.
pub open spec fn tracker_info_3() -> TrackerInfo {
    TrackerInfo { company: "Amazon", category: TrackerCategory::Advertising, description: "Amazon advertising and tracking" }
}

/// The entry shared by one group of domains of the built-in database.
pub open spec fn tracker_info_4() -> TrackerInfo {
    TrackerInfo { company: "Microsoft", category: TrackerCategory::Analytics, description: "Microsoft analytics and advertising" }
}

/// The entry shared by one group of domains of the built-in database.
pub open spec fn tracker_info_5() -> TrackerInfo {
    TrackerInfo { company: "Adobe", category: TrackerCategory::Analytics, description: "Adobe Experience Cloud tracking" }
}

/// The entry shared by one group of domains of the built-in database.
pub open spec fn tracker_info_6() -> TrackerInfo {
    TrackerInfo { company: "Oracle", category: TrackerCategory::Advertising, description: "Oracle Data Cloud / BlueKai tracking" }
}

/// The entry shared by one group of domains of the built-in database.
pub open spec fn tracker_info_7() -> TrackerInfo {
    TrackerInfo { company: "Criteo", category: TrackerCategory::Advertising, description: "Criteo retargeting and advertising" }
}

/// The entry shared by one group of domains of the built-in database.
pub open spec fn tracker_info_8() -> TrackerInfo {
    TrackerInfo { company: "Twitter/X", category: TrackerCategory::Social, description: "Twitter/X social tracking" }
}

/// The entry shared by one group of domains of the built-in database.
pub open spec fn tracker_info_9() -> TrackerInfo {
    TrackerInfo { company: "LinkedIn", category: TrackerCategory::Social, description: "LinkedIn Insight tracking" }
}

/// The entry shared by one group of domains of the built-in database.
pub open spec fn tracker_info_10() -> TrackerInfo {
    TrackerInfo { company: "TikTok", category: TrackerCategory::Social, description: "TikTok pixel tracking" }
}

/// The entry shared by one group of domains of the built-in database.
pub open spec fn tracker_info_11() -> TrackerInfo {
    TrackerInfo { company: "Pinterest", category: TrackerCategory::Social, description: "Pinterest conversion tracking" }
}

/// The entry shared by one group of domains of the built-in database.
pub open spec fn tracker_info_12() -> TrackerInfo {
    TrackerInfo { company: "Hotjar", category: TrackerCategory::Analytics, description: "Hotjar session recording and heatmaps" }
}

/// The entry shared by one group of domains of the built-in database.
pub open spec fn tracker_info_13() -> TrackerInfo {
    TrackerInfo { company: "New Relic", category: TrackerCategory::Analytics, description: "New Relic performance monitoring" }
}

/// The entry shared by one group of domains of the built-in database.
pub open spec fn tracker_info_14() -> TrackerInfo {
    TrackerInfo { company: "Segment", category: TrackerCategory::Analytics, description: "Segment customer data platform" }
}

/// The entry shared by one group of domains of the built-in database.
pub open spec fn tracker_info_15() -> TrackerInfo {
    TrackerInfo { company: "Mixpanel", category: TrackerCategory::Analytics, description: "Mixpanel product analytics" }
}

/// The entry shared by one group of domains of the built-in database.
pub open spec fn tracker_info_16() -> TrackerInfo {
    TrackerInfo { company: "Quantcast", category: TrackerCategory::Advertising, description: "Quantcast audience measurement" }
}

/// The entry shared by one group of domains of the built-in database.
pub open spec fn tracker_info_17() -> TrackerInfo {
    TrackerInfo { company: "The Trade Desk", category: TrackerCategory::Advertising, description: "The Trade Desk programmatic advertising" }
}

/// The entry shared by one group of domains of the built-in database.
pub open spec fn tracker_info_18() -> TrackerInfo {
    TrackerInfo { company: "Taboola", category: TrackerCategory::Content, description: "Taboola content recommendation" }
}

/// The entry shared by one group of domains of the built-in database.
pub open spec fn tracker_info_19() -> TrackerInfo {
    TrackerInfo { company: "Outbrain", category: TrackerCategory::Content, description: "Outbrain content recommendation" }
}

/// The entry shared by one group of domains of the built-in database.
pub open spec fn tracker_info_20() -> TrackerInfo {
    TrackerInfo { company: "MediaMath", category: TrackerCategory::Advertising, description: "MediaMath demand-side platform" }
}

/// The entry shared by one group of domains of the built-in database.
pub open spec fn tracker_info_21() -> TrackerInfo {
    TrackerInfo { company: "Xandr (Microsoft)", category: TrackerCategory::Advertising, description: "AppNexus/Xandr programmatic advertising" }
}

/// The entry shared by one group of domains of the built-in database.
pub open spec fn tracker_info_22() -> TrackerInfo {
    TrackerInfo { company: "Magnite", category: TrackerCategory::Advertising, description: "Magnite (Rubicon Project) ad exchange" }
}

/// The entry shared by one group of domains of the built-in database.
pub open spec fn tracker_info_23() -> TrackerInfo {
    TrackerInfo { company: "comScore", category: TrackerCategory::Analytics, description: "comScore audience measurement" }
}

/// The entry shared by one group of domains of the built-in database.
pub open spec fn tracker_info_24() -> TrackerInfo {
    TrackerInfo { company: "Cloudflare", category: TrackerCategory::Analytics, description: "Cloudflare Web Analytics" }
}

/// The entry shared by one group of domains of the built-in database.
pub open spec fn tracker_info_25() -> TrackerInfo {
    TrackerInfo { company: "Snap Inc.", category: TrackerCategory::Social, description: "Snapchat pixel tracking" }
}

/// The entry shared by one group of domains of the built-in database.
pub open spec fn tracker_info_26() -> TrackerInfo {
    TrackerInfo { company: "Heap", category: TrackerCategory::Analytics, description: "Heap product analytics" }
}

/// The entry shared by one group of domains of the built-in database.
pub open spec fn tracker_info_27() -> TrackerInfo {
    TrackerInfo { company: "FullStory", category: TrackerCategory::Fingerprinting, description: "FullStory session replay and analytics" }
}

/// The entry shared by one group of domains of the built-in database.
pub open spec fn tracker_info_28() -> TrackerInfo {
    TrackerInfo { company: "Optimizely", category: TrackerCategory::Analytics, description: "Optimizely experimentation platform" }
}

/// The entry shared by one group of domains of the built-in database.
pub open spec fn tracker_info_29() -> TrackerInfo {
    TrackerInfo { company: "LiveRamp", category: TrackerCategory::Fingerprinting, description: "LiveRamp identity resolution" }
}

/// The entry shared by one group of domains of the built-in database.
pub open spec fn tracker_info_30() -> TrackerInfo {
    TrackerInfo { company: "ID5", category: TrackerCategory::Fingerprinting, description: "ID5 universal ID for advertising" }
}

/// The entry shared by one group of domains of the built-in database.
pub open spec fn tracker_info_31() -> TrackerInfo {
    TrackerInfo { company: "Yandex", category: TrackerCategory::Analytics, description: "Yandex Metrica analytics" }
}

/// The entry shared by one group of domains of the built-in database.
pub open spec fn tracker_info_32() -> TrackerInfo {
    TrackerInfo { company: "Baidu", category: TrackerCategory::Analytics, description: "Baidu Tongji analytics" }
}

/// The entry shared by one group of domains of the built-in database.
pub open spec fn tracker_info_33() -> TrackerInfo {
    TrackerInfo { company: "Reddit", category: TrackerCategory::Social, description: "Reddit conversion pixel" }
}

/// The entry shared by one group of domains of the built-in database.
pub open spec fn tracker_info_34() -> TrackerInfo {
    TrackerInfo { company: "Amplitude", category: TrackerCategory::Analytics, description: "Amplitude product analytics" }
}

/// The entry shared by one group of domains of the built-in database.
pub open spec fn tracker_info_35() -> TrackerInfo {
    TrackerInfo { company: "Matomo", category: TrackerCategory::Analytics, description: "Matomo Cloud web analytics" }
}

/// The entry shared by one group of domains of the built-in database.
pub open spec fn tracker_info_36() -> TrackerInfo {
    TrackerInfo { company: "Piwik PRO", category: TrackerCategory::Analytics, description: "Piwik PRO analytics suite" }
}

/// The entry shared by one group of domains of the built-in database.
pub open spec fn tracker_info_37() -> TrackerInfo {
    TrackerInfo { company: "Crazy Egg", category: TrackerCategory::Analytics, description: "Crazy Egg heatmaps" }
}

/// The entry shared by one group of domains of the built-in database.
pub open spec fn tracker_info_38() -> TrackerInfo {
    TrackerInfo { company: "Mouseflow", category: TrackerCategory::Fingerprinting, description: "Mouseflow session replay" }
}

/// The entry shared by one group of domains of the built-in database.
pub open spec fn tracker_info_39() -> TrackerInfo {
    TrackerInfo { company: "Lucky Orange", category: TrackerCategory::Fingerprinting, description: "Lucky Orange session recording" }
}

/// The entry shared by one group of domains of the built-in database.
pub open spec fn tracker_info_40() -> TrackerInfo {
    TrackerInfo { company: "Smartlook", category: TrackerCategory::Fingerprinting, description: "Smartlook session recording" }
}

/// The entry shared by one group of domains of the built-in database.
pub open spec fn tracker_info_41() -> TrackerInfo {
    TrackerInfo { company: "Inspectlet", category: TrackerCategory::Fingerprinting, description: "Inspectlet session recording" }
}

/// The entry shared by one group of domains of the built-in database.
pub open spec fn tracker_info_42() -> TrackerInfo {
    TrackerInfo { company: "FingerprintJS", category: TrackerCategory::Fingerprinting, description: "FingerprintJS browser fingerprinting" }
}

/// The entry shared by one group of domains of the built-in database.
pub open spec fn tracker_info_43() -> TrackerInfo {
    TrackerInfo { company: "PubMatic", category: TrackerCategory::Advertising, description: "PubMatic supply-side platform" }
}

/// The entry shared by one group of domains of the built-in database.
pub open spec fn tracker_info_44() -> TrackerInfo {
    TrackerInfo { company: "OpenX", category: TrackerCategory::Advertising, description: "OpenX ad exchange" }
}

/// The entry shared by one group of domains of the built-in database.
pub open spec fn tracker_info_45() -> TrackerInfo {
    TrackerInfo { company: "Index Exchange", category: TrackerCategory::Advertising, description: "Index Exchange ad exchange" }
}

/// The entry shared by one group of domains of the built-in database.
pub open spec fn tracker_info_46() -> TrackerInfo {
    TrackerInfo { company: "Sovrn", category: TrackerCategory::Advertising, description: "Sovrn publisher advertising" }
}

/// The entry shared by one group of domains of the built-in database.
pub open spec fn tracker_info_47() -> TrackerInfo {
    TrackerInfo { company: "Yahoo", category: TrackerCategory::Advertising, description: "Yahoo advertising and analytics" }
}

/// The entry shared by one group of domains of the built-in database.
pub open spec fn tracker_info_48() -> TrackerInfo {
    TrackerInfo { company: "AdRoll", category: TrackerCategory::Advertising, description: "AdRoll retargeting" }
}

/// The entry shared by one group of domains of the built-in database.
pub open spec fn tracker_info_49() -> TrackerInfo {
    TrackerInfo { company: "Equativ", category: TrackerCategory::Advertising, description: "Equativ (Smart AdServer) ad serving" }
}

/// The entry shared by one group of domains of the built-in database.
pub open spec fn tracker_info_50() -> TrackerInfo {
    TrackerInfo { company: "Teads", category: TrackerCategory::Advertising, description: "Teads video advertising" }
}

/// The entry shared by one group of domains of the built-in database.
pub open spec fn tracker_info_51() -> TrackerInfo {
    TrackerInfo { company: "Sharethrough", category: TrackerCategory::Advertising, description: "Sharethrough native advertising" }
}

/// The entry shared by one group of domains of the built-in database.
pub open spec fn tracker_info_52() -> TrackerInfo {
    TrackerInfo { company: "TripleLift", category: TrackerCategory::Advertising, description: "TripleLift native advertising" }
}

/// The entry shared by one group of domains of the built-in database.
pub open spec fn tracker_info_53() -> TrackerInfo {
    TrackerInfo { company: "Zeta Global", category: TrackerCategory::Advertising, description: "Zeta Global marketing data" }
}

/// The entry shared by one group of domains of the built-in database.
pub open spec fn tracker_info_54() -> TrackerInfo {
    TrackerInfo { company: "Lotame", category: TrackerCategory::Fingerprinting, description: "Lotame data management platform" }
}

/// The entry shared by one group of domains of the built-in database.
pub open spec fn tracker_info_55() -> TrackerInfo {
    TrackerInfo { company: "Tapad", category: TrackerCategory::Fingerprinting, description: "Tapad cross-device tracking" }
}

/// The entry shared by one group of domains of the built-in database.
pub open spec fn tracker_info_56() -> TrackerInfo {
    TrackerInfo { company: "Neustar", category: TrackerCategory::Fingerprinting, description: "Neustar identity resolution" }
}

/// The entry shared by one group of domains of the built-in database.
pub open spec fn tracker_info_57() -> TrackerInfo {
    TrackerInfo { company: "Nielsen", category: TrackerCategory::Analytics, description: "Nielsen audience measurement" }
}

/// The entry shared by one group of domains of the built-in database.
pub open spec fn tracker_info_58() -> TrackerInfo {
    TrackerInfo { company: "Chartbeat", category: TrackerCategory::Analytics, description: "Chartbeat real-time analytics" }
}

/// The entry shared by one group of domains of the built-in database.
pub open spec fn tracker_info_59() -> TrackerInfo {
    TrackerInfo { company: "Parse.ly", category: TrackerCategory::Analytics, description: "Parse.ly content analytics" }
}

/// The entry shared by one group of domains of the built-in database.
pub open spec fn tracker_info_60() -> TrackerInfo {
    TrackerInfo { company: "Kissmetrics", category: TrackerCategory::Analytics, description: "Kissmetrics behavioral analytics" }
}

/// The entry shared by one group of domains of the built-in database.
pub open spec fn tracker_info_61() -> TrackerInfo {
    TrackerInfo { company: "HubSpot", category: TrackerCategory::Analytics, description: "HubSpot marketing analytics" }
}

/// The entry shared by one group of domains of the built-in database.
pub open spec fn tracker_info_62() -> TrackerInfo {
    TrackerInfo { company: "Salesforce", category: TrackerCategory::Analytics, description: "Salesforce marketing tracking" }
}

/// The entry shared by one group of domains of the built-in database.
pub open spec fn tracker_info_63() -> TrackerInfo {
    TrackerInfo { company: "Marketo", category: TrackerCategory::Analytics, description: "Marketo marketing automation tracking" }
}

/// The entry shared by one group of domains of the built-in database.
pub open spec fn tracker_info_64() -> TrackerInfo {
    TrackerInfo { company: "Intercom", category: TrackerCategory::Analytics, description: "Intercom messaging and tracking" }
}

/// The entry shared by one group of domains of the built-in database.
pub open spec fn tracker_info_65() -> TrackerInfo {
    TrackerInfo { company: "Branch", category: TrackerCategory::Analytics, description: "Branch deep-link attribution" }
}

/// The entry shared by one group of domains of the built-in database.
pub open spec fn tracker_info_66() -> TrackerInfo {
    TrackerInfo { company: "AppsFlyer", category: TrackerCategory::Analytics, description: "AppsFlyer mobile attribution" }
}

/// The entry shared by one group of domains of the built-in database.
pub open spec fn tracker_info_67() -> TrackerInfo {
    TrackerInfo { company: "Adjust", category: TrackerCategory::Analytics, description: "Adjust mobile attribution" }
}

/// The entry shared by one group of domains of the built-in database.
pub open spec fn tracker_info_68() -> TrackerInfo {
    TrackerInfo { company: "Akamai", category: TrackerCategory::Content, description: "Akamai CDN and real-user monitoring" }
}

/// The entry shared by one group of domains of the built-in database.
pub open spec fn tracker_info_69() -> TrackerInfo {
    TrackerInfo { company: "Fastly", category: TrackerCategory::Content, description: "Fastly CDN and insights" }
}

/// The entry shared by one group of domains of the built-in database.
pub open spec fn tracker_info_70() -> TrackerInfo {
    TrackerInfo { company: "Disqus", category: TrackerCategory::Social, description: "Disqus comment widget tracking" }
}

/// The entry shared by one group of domains of the built-in database.
pub open spec fn tracker_info_71() -> TrackerInfo {
    TrackerInfo { company: "ShareThis", category: TrackerCategory::Social, description: "ShareThis share buttons tracking" }
}

/// The entry shared by one group of domains of the built-in database.
pub open spec fn tracker_info_72() -> TrackerInfo {
    TrackerInfo { company: "Quora", category: TrackerCategory::Social, description: "Quora conversion pixel" }
}

/// The built-in tracker table: each domain with what is known of it.
pub open spec fn tracker_table() -> Map<Seq<char>, TrackerInfo> {
    Map::<Seq<char>, TrackerInfo>::empty()
        .insert("doubleclick.net"@, tracker_info_0())
        .insert("googlesyndication.com"@, tracker_info_0())
        .insert("googleadservices.com"@, tracker_info_0())
        .insert("googleads.g.doubleclick.net"@, tracker_info_0())
        .insert("adservice.google.com"@, tracker_info_0())
        .insert("pagead2.googlesyndication.com"@, tracker_info_0())
        .insert("google-analytics.com"@, tracker_info_1())
        .insert("googletagmanager.com"@, tracker_info_1())
        .insert("googletagservices.com"@, tracker_info_1())
        .insert("analytics.google.com"@, tracker_info_1())
        .insert("tagmanager.google.com"@, tracker_info_1())
        .insert("www.googletagmanager.com"@, tracker_info_1())
        .insert("facebook.net"@, tracker_info_2())
        .insert("connect.facebook.net"@, tracker_info_2())
        .insert("facebook.com"@, tracker_info_2())
        .insert("fbcdn.net"@, tracker_info_2())
        .insert("fb.com"@, tracker_info_2())
        .insert("instagram.com"@, tracker_info_2())
        .insert("amazon-adsystem.com"@, tracker_info_3())
        .insert("assoc-amazon.com"@, tracker_info_3())
        .insert("advertising.amazon.com"@, tracker_info_3())
        .insert("aax.amazon-adsystem.com"@, tracker_info_3())
        .insert("clarity.ms"@, tracker_info_4())
        .insert("bat.bing.com"@, tracker_info_4())
        .insert("bing.com"@, tracker_info_4())
        .insert("c.bing.com"@, tracker_info_4())
        .insert("demdex.net"@, tracker_info_5())
        .insert("omtrdc.net"@, tracker_info_5())
        .insert("everesttech.net"@, tracker_info_5())
        .insert("bluekai.com"@, tracker_info_6())
        .insert("addthis.com"@, tracker_info_6())
        .insert("moatads.com"@, tracker_info_6())
        .insert("criteo.com"@, tracker_info_7())
        .insert("criteo.net"@, tracker_info_7())
        .insert("emailretargeting.com"@, tracker_info_7())
        .insert("platform.twitter.com"@, tracker_info_8())
        .insert("t.co"@, tracker_info_8())
        .insert("snap.licdn.com"@, tracker_info_9())
        .insert("linkedin.com"@, tracker_info_9())
        .insert("analytics.tiktok.com"@, tracker_info_10())
        .insert("tiktok.com"@, tracker_info_10())
        .insert("ct.pinterest.com"@, tracker_info_11())
        .insert("hotjar.com"@, tracker_info_12())
        .insert("static.hotjar.com"@, tracker_info_12())
        .insert("nr-data.net"@, tracker_info_13())
        .insert("segment.io"@, tracker_info_14())
        .insert("mixpanel.com"@, tracker_info_15())
        .insert("quantserve.com"@, tracker_info_16())
        .insert("adsrvr.org"@, tracker_info_17())
        .insert("taboola.com"@, tracker_info_18())
        .insert("outbrain.com"@, tracker_info_19())
        .insert("mathtag.com"@, tracker_info_20())
        .insert("adnxs.com"@, tracker_info_21())
        .insert("rubiconproject.com"@, tracker_info_22())
        .insert("scorecardresearch.com"@, tracker_info_23())
        .insert("static.cloudflareinsights.com"@, tracker_info_24())
        .insert("sc-static.net"@, tracker_info_25())
        .insert("heapanalytics.com"@, tracker_info_26())
        .insert("fullstory.com"@, tracker_info_27())
        .insert("optimizely.com"@, tracker_info_28())
        .insert("rlcdn.com"@, tracker_info_29())
        .insert("id5-sync.com"@, tracker_info_30())
        .insert("mc.yandex.ru"@, tracker_info_31())
        .insert("metrika.yandex.ru"@, tracker_info_31())
        .insert("an.yandex.ru"@, tracker_info_31())
        .insert("hm.baidu.com"@, tracker_info_32())
        .insert("pos.baidu.com"@, tracker_info_32())
        .insert("alb.reddit.com"@, tracker_info_33())
        .insert("events.redditmedia.com"@, tracker_info_33())
        .insert("amplitude.com"@, tracker_info_34())
        .insert("api.amplitude.com"@, tracker_info_34())
        .insert("cdn.amplitude.com"@, tracker_info_34())
        .insert("matomo.cloud"@, tracker_info_35())
        .insert("cdn.matomo.cloud"@, tracker_info_35())
        .insert("piwik.pro"@, tracker_info_36())
        .insert("containers.piwik.pro"@, tracker_info_36())
        .insert("crazyegg.com"@, tracker_info_37())
        .insert("script.crazyegg.com"@, tracker_info_37())
        .insert("mouseflow.com"@, tracker_info_38())
        .insert("cdn.mouseflow.com"@, tracker_info_38())
        .insert("luckyorange.com"@, tracker_info_39())
        .insert("luckyorange.net"@, tracker_info_39())
        .insert("smartlook.com"@, tracker_info_40())
        .insert("rec.smartlook.com"@, tracker_info_40())
        .insert("inspectlet.com"@, tracker_info_41())
        .insert("cdn.inspectlet.com"@, tracker_info_41())
        .insert("fingerprint.com"@, tracker_info_42())
        .insert("fpjs.io"@, tracker_info_42())
        .insert("fpcdn.io"@, tracker_info_42())
        .insert("pubmatic.com"@, tracker_info_43())
        .insert("ads.pubmatic.com"@, tracker_info_43())
        .insert("openx.net"@, tracker_info_44())
        .insert("us-u.openx.net"@, tracker_info_44())
        .insert("casalemedia.com"@, tracker_info_45())
        .insert("indexww.com"@, tracker_info_45())
        .insert("lijit.com"@, tracker_info_46())
        .insert("sovrn.com"@, tracker_info_46())
        .insert("ads.yahoo.com"@, tracker_info_47())
        .insert("analytics.yahoo.com"@, tracker_info_47())
        .insert("sp.analytics.yahoo.com"@, tracker_info_47())
        .insert("adroll.com"@, tracker_info_48())
        .insert("d.adroll.com"@, tracker_info_48())
        .insert("smartadserver.com"@, tracker_info_49())
        .insert("sascdn.com"@, tracker_info_49())
        .insert("teads.tv"@, tracker_info_50())
        .insert("a.teads.tv"@, tracker_info_50())
        .insert("sharethrough.com"@, tracker_info_51())
        .insert("btlr.sharethrough.com"@, tracker_info_51())
        .insert("3lift.com"@, tracker_info_52())
        .insert("tlx.3lift.com"@, tracker_info_52())
        .insert("zetaglobal.net"@, tracker_info_53())
        .insert("rezync.com"@, tracker_info_53())
        .insert("crwdcntrl.net"@, tracker_info_54())
        .insert("lotame.com"@, tracker_info_54())
        .insert("tapad.com"@, tracker_info_55())
        .insert("pixel.tapad.com"@, tracker_info_55())
        .insert("agkn.com"@, tracker_info_56())
        .insert("neustar.biz"@, tracker_info_56())
        .insert("imrworldwide.com"@, tracker_info_57())
        .insert("nielsen.com"@, tracker_info_57())
        .insert("chartbeat.com"@, tracker_info_58())
        .insert("chartbeat.net"@, tracker_info_58())
        .insert("static.chartbeat.com"@, tracker_info_58())
        .insert("parsely.com"@, tracker_info_59())
        .insert("cdn.parsely.com"@, tracker_info_59())
        .insert("kissmetrics.com"@, tracker_info_60())
        .insert("i.kissmetrics.io"@, tracker_info_60())
        .insert("hs-analytics.net"@, tracker_info_61())
        .insert("hubspot.com"@, tracker_info_61())
        .insert("hs-scripts.com"@, tracker_info_61())
        .insert("pardot.com"@, tracker_info_62())
        .insert("krxd.net"@, tracker_info_62())
        .insert("exacttarget.com"@, tracker_info_62())
        .insert("marketo.net"@, tracker_info_63())
        .insert("mktoresp.com"@, tracker_info_63())
        .insert("intercom.io"@, tracker_info_64())
        .insert("widget.intercom.io"@, tracker_info_64())
        .insert("branch.io"@, tracker_info_65())
        .insert("app.link"@, tracker_info_65())
        .insert("appsflyer.com"@, tracker_info_66())
        .insert("onelink.me"@, tracker_info_66())
        .insert("adjust.com"@, tracker_info_67())
        .insert("app.adjust.com"@, tracker_info_67())
        .insert("akamaihd.net"@, tracker_info_68())
        .insert("akamaized.net"@, tracker_info_68())
        .insert("go-mpulse.net"@, tracker_info_68())
        .insert("fastly.net"@, tracker_info_69())
        .insert("fastly-insights.com"@, tracker_info_69())
        .insert("disqus.com"@, tracker_info_70())
        .insert("disquscdn.com"@, tracker_info_70())
        .insert("sharethis.com"@, tracker_info_71())
        .insert("platform-api.sharethis.com"@, tracker_info_71())
        .insert("q.quora.com"@, tracker_info_72())
        .insert("quoracdn.net"@, tracker_info_72())
        .insert("googleoptimize.com"@, tracker_info_1())
        .insert("ssl.google-analytics.com"@, tracker_info_1())
        .insert("px.ads.linkedin.com"@, tracker_info_9())
        .insert("byteoversea.com"@, tracker_info_10())
        .insert("pinterest.com"@, tracker_info_11())
        .insert("ads-twitter.com"@, tracker_info_8())
        .insert("analytics.twitter.com"@, tracker_info_8())
        .insert("tr.snapchat.com"@, tracker_info_25())
        .insert("newrelic.com"@, tracker_info_13())
}

/// Adds part 1 of the built-in table.
fn add_tracker_part_1(db: &mut TrackerDb)
    ensures
        final(db)@ == old(db)@
            .insert("doubleclick.net"@, tracker_info_0())
            .insert("googlesyndication.com"@, tracker_info_0())
            .insert("googleadservices.com"@, tracker_info_0())
            .insert("googleads.g.doubleclick.net"@, tracker_info_0())
            .insert("adservice.google.com"@, tracker_info_0())
            .insert("pagead2.googlesyndication.com"@, tracker_info_0())
            .insert("google-analytics.com"@, tracker_info_1())
            .insert("googletagmanager.com"@, tracker_info_1())
            .insert("googletagservices.com"@, tracker_info_1())
            .insert("analytics.google.com"@, tracker_info_1())
            .insert("tagmanager.google.com"@, tracker_info_1())
            .insert("www.googletagmanager.com"@, tracker_info_1())
            .insert("facebook.net"@, tracker_info_2())
            .insert("connect.facebook.net"@, tracker_info_2())
            .insert("facebook.com"@, tracker_info_2())
            .insert("fbcdn.net"@, tracker_info_2())
            .insert("fb.com"@, tracker_info_2())
            .insert("instagram.com"@, tracker_info_2())
            .insert("amazon-adsystem.com"@, tracker_info_3())
            .insert("assoc-amazon.com"@, tracker_info_3()),
{
    let info_0 = TrackerInfo { company: "Google", category: TrackerCategory::Advertising, description: "Google advertising network" };
    let info_1 = TrackerInfo { company: "Google", category: TrackerCategory::Analytics, description: "Google Analytics tracking" };
    let info_2 = TrackerInfo { company: "Meta", category: TrackerCategory::Social, description: "Meta social tracking pixel" };
    let info_3 = TrackerInfo { company: "Amazon", category: TrackerCategory::Advertising, description: "Amazon advertising and tracking" };
    db.insert("doubleclick.net", info_0);
    db.insert("googlesyndication.com", info_0);
    db.insert("googleadservices.com", info_0);
    db.insert("googleads.g.doubleclick.net", info_0);
    db.insert("adservice.google.com", info_0);
    db.insert("pagead2.googlesyndication.com", info_0);
    db.insert("google-analytics.com", info_1);
    db.insert("googletagmanager.com", info_1);
    db.insert("googletagservices.com", info_1);
    db.insert("analytics.google.com", info_1);
    db.insert("tagmanager.google.com", info_1);
    db.insert("www.googletagmanager.com", info_1);
    db.insert("facebook.net", info_2);
    db.insert("connect.facebook.net", info_2);
    db.insert("facebook.com", info_2);
    db.insert("fbcdn.net", info_2);
    db.insert("fb.com", info_2);
    db.insert("instagram.com", info_2);
    db.insert("amazon-adsystem.com", info_3);
    db.insert("assoc-amazon.com", info_3);
}

/// Adds part 2 of the built-in table.
fn add_tracker_part_2(db: &mut TrackerDb)
    ensures
        final(db)@ == old(db)@
            .insert("advertising.amazon.com"@, tracker_info_3())
            .insert("aax.amazon-adsystem.com"@, tracker_info_3())
            .insert("clarity.ms"@, tracker_info_4())
            .insert("bat.bing.com"@, tracker_info_4())
            .insert("bing.com"@, tracker_info_4())
            .insert("c.bing.com"@, tracker_info_4())
            .insert("demdex.net"@, tracker_info_5())
            .insert("omtrdc.net"@, tracker_info_5())
            .insert("everesttech.net"@, tracker_info_5())
            .insert("bluekai.com"@, tracker_info_6())
            .insert("addthis.com"@, tracker_info_6())
            .insert("moatads.com"@, tracker_info_6())
            .insert("criteo.com"@, tracker_info_7())
            .insert("criteo.net"@, tracker_info_7())
            .insert("emailretargeting.com"@, tracker_info_7())
            .insert("platform.twitter.com"@, tracker_info_8())
            .insert("t.co"@, tracker_info_8())
            .insert("snap.licdn.com"@, tracker_info_9())
            .insert("linkedin.com"@, tracker_info_9())
            .insert("analytics.tiktok.com"@, tracker_info_10()),
{
    let info_3 = TrackerInfo { company: "Amazon", category: TrackerCategory::Advertising, description: "Amazon advertising and tracking" };
    let info_4 = TrackerInfo { company: "Microsoft", category: TrackerCategory::Analytics, description: "Microsoft analytics and advertising" };
    let info_5 = TrackerInfo { company: "Adobe", category: TrackerCategory::Analytics, description: "Adobe Experience Cloud tracking" };
    let info_6 = TrackerInfo { company: "Oracle", category: TrackerCategory::Advertising, description: "Oracle Data Cloud / BlueKai tracking" };
    let info_7 = TrackerInfo { company: "Criteo", category: TrackerCategory::Advertising, description: "Criteo retargeting and advertising" };
    let info_8 = TrackerInfo { company: "Twitter/X", category: TrackerCategory::Social, description: "Twitter/X social tracking" };
    let info_9 = TrackerInfo { company: "LinkedIn", category: TrackerCategory::Social, description: "LinkedIn Insight tracking" };
    let info_10 = TrackerInfo { company: "TikTok", category: TrackerCategory::Social, description: "TikTok pixel tracking" };
    db.insert("advertising.amazon.com", info_3);
    db.insert("aax.amazon-adsystem.com", info_3);
    db.insert("clarity.ms", info_4);
    db.insert("bat.bing.com", info_4);
    db.insert("bing.com", info_4);
    db.insert("c.bing.com", info_4);
    db.insert("demdex.net", info_5);
    db.insert("omtrdc.net", info_5);
    db.insert("everesttech.net", info_5);
    db.insert("bluekai.com", info_6);
    db.insert("addthis.com", info_6);
    db.insert("moatads.com", info_6);
    db.insert("criteo.com", info_7);
    db.insert("criteo.net", info_7);
    db.insert("emailretargeting.com", info_7);
    db.insert("platform.twitter.com", info_8);
    db.insert("t.co", info_8);
    db.insert("snap.licdn.com", info_9);
    db.insert("linkedin.com", info_9);
    db.insert("analytics.tiktok.com", info_10);
}

/// Adds part 3 of the built-in table.
fn add_tracker_part_3(db: &mut TrackerDb)
    ensures
        final(db)@ == old(db)@
            .insert("tiktok.com"@, tracker_info_10())
            .insert("ct.pinterest.com"@, tracker_info_11())
            .insert("hotjar.com"@, tracker_info_12())
            .insert("static.hotjar.com"@, tracker_info_12())
            .insert("nr-data.net"@, tracker_info_13())
            .insert("segment.io"@, tracker_info_14())
            .insert("mixpanel.com"@, tracker_info_15())
            .insert("quantserve.com"@, tracker_info_16())
            .insert("adsrvr.org"@, tracker_info_17())
            .insert("taboola.com"@, tracker_info_18())
            .insert("outbrain.com"@, tracker_info_19())
            .insert("mathtag.com"@, tracker_info_20())
            .insert("adnxs.com"@, tracker_info_21())
            .insert("rubiconproject.com"@, tracker_info_22())
            .insert("scorecardresearch.com"@, tracker_info_23())
            .insert("static.cloudflareinsights.com"@, tracker_info_24())
            .insert("sc-static.net"@, tracker_info_25())
            .insert("heapanalytics.com"@, tracker_info_26())
            .insert("fullstory.com"@, tracker_info_27())
            .insert("optimizely.com"@, tracker_info_28()),
{
    let info_10 = TrackerInfo { company: "TikTok", category: TrackerCategory::Social, description: "TikTok pixel tracking" };
    let info_11 = TrackerInfo { company: "Pinterest", category: TrackerCategory::Social, description: "Pinterest conversion tracking" };
    let info_12 = TrackerInfo { company: "Hotjar", category: TrackerCategory::Analytics, description: "Hotjar session recording and heatmaps" };
    let info_13 = TrackerInfo { company: "New Relic", category: TrackerCategory::Analytics, description: "New Relic performance monitoring" };
    let info_14 = TrackerInfo { company: "Segment", category: TrackerCategory::Analytics, description: "Segment customer data platform" };
    let info_15 = TrackerInfo { company: "Mixpanel", category: TrackerCategory::Analytics, description: "Mixpanel product analytics" };
    let info_16 = TrackerInfo { company: "Quantcast", category: TrackerCategory::Advertising, description: "Quantcast audience measurement" };
    let info_17 = TrackerInfo { company: "The Trade Desk", category: TrackerCategory::Advertising, description: "The Trade Desk programmatic advertising" };
    let info_18 = TrackerInfo { company: "Taboola", category: TrackerCategory::Content, description: "Taboola content recommendation" };
    let info_19 = TrackerInfo { company: "Outbrain", category: TrackerCategory::Content, description: "Outbrain content recommendation" };
    let info_20 = TrackerInfo { company: "MediaMath", category: TrackerCategory::Advertising, description: "MediaMath demand-side platform" };
    let info_21 = TrackerInfo { company: "Xandr (Microsoft)", category: TrackerCategory::Advertising, description: "AppNexus/Xandr programmatic advertising" };
    let info_22 = TrackerInfo { company: "Magnite", category: TrackerCategory::Advertising, description: "Magnite (Rubicon Project) ad exchange" };
    let info_23 = TrackerInfo { company: "comScore", category: TrackerCategory::Analytics, description: "comScore audience measurement" };
    let info_24 = TrackerInfo { company: "Cloudflare", category: TrackerCategory::Analytics, description: "Cloudflare Web Analytics" };
    let info_25 = TrackerInfo { company: "Snap Inc.", category: TrackerCategory::Social, description: "Snapchat pixel tracking" };
    let info_26 = TrackerInfo { company: "Heap", category: TrackerCategory::Analytics, description: "Heap product analytics" };
    let info_27 = TrackerInfo { company: "FullStory", category: TrackerCategory::Fingerprinting, description: "FullStory session replay and analytics" };
    let info_28 = TrackerInfo { company: "Optimizely", category: TrackerCategory::Analytics, description: "Optimizely experimentation platform" };
    db.insert("tiktok.com", info_10);
    db.insert("ct.pinterest.com", info_11);
    db.insert("hotjar.com", info_12);
    db.insert("static.hotjar.com", info_12);
    db.insert("nr-data.net", info_13);
    db.insert("segment.io", info_14);
    db.insert("mixpanel.com", info_15);
    db.insert("quantserve.com", info_16);
    db.insert("adsrvr.org", info_17);
    db.insert("taboola.com", info_18);
    db.insert("outbrain.com", info_19);
    db.insert("mathtag.com", info_20);
    db.insert("adnxs.com", info_21);
    db.insert("rubiconproject.com", info_22);
    db.insert("scorecardresearch.com", info_23);
    db.insert("static.cloudflareinsights.com", info_24);
    db.insert("sc-static.net", info_25);
    db.insert("heapanalytics.com", info_26);
    db.insert("fullstory.com", info_27);
    db.insert("optimizely.com", info_28);
}

/// Adds part 4 of the built-in table.
fn add_tracker_part_4(db: &mut TrackerDb)
    ensures
        final(db)@ == old(db)@
            .insert("rlcdn.com"@, tracker_info_29())
            .insert("id5-sync.com"@, tracker_info_30())
            .insert("mc.yandex.ru"@, tracker_info_31())
            .insert("metrika.yandex.ru"@, tracker_info_31())
            .insert("an.yandex.ru"@, tracker_info_31())
            .insert("hm.baidu.com"@, tracker_info_32())
            .insert("pos.baidu.com"@, tracker_info_32())
            .insert("alb.reddit.com"@, tracker_info_33())
            .insert("events.redditmedia.com"@, tracker_info_33())
            .insert("amplitude.com"@, tracker_info_34())
            .insert("api.amplitude.com"@, tracker_info_34())
            .insert("cdn.amplitude.com"@, tracker_info_34())
            .insert("matomo.cloud"@, tracker_info_35())
            .insert("cdn.matomo.cloud"@, tracker_info_35())
            .insert("piwik.pro"@, tracker_info_36())
            .insert("containers.piwik.pro"@, tracker_info_36())
            .insert("crazyegg.com"@, tracker_info_37())
            .insert("script.crazyegg.com"@, tracker_info_37())
            .insert("mouseflow.com"@, tracker_info_38())
            .insert("cdn.mouseflow.com"@, tracker_info_38()),
{
    let info_29 = TrackerInfo { company: "LiveRamp", category: TrackerCategory::Fingerprinting, description: "LiveRamp identity resolution" };
    let info_30 = TrackerInfo { company: "ID5", category: TrackerCategory::Fingerprinting, description: "ID5 universal ID for advertising" };
    let info_31 = TrackerInfo { company: "Yandex", category: TrackerCategory::Analytics, description: "Yandex Metrica analytics" };
    let info_32 = TrackerInfo { company: "Baidu", category: TrackerCategory::Analytics, description: "Baidu Tongji analytics" };
    let info_33 = TrackerInfo { company: "Reddit", category: TrackerCategory::Social, description: "Reddit conversion pixel" };
    let info_34 = TrackerInfo { company: "Amplitude", category: TrackerCategory::Analytics, description: "Amplitude product analytics" };
    let info_35 = TrackerInfo { company: "Matomo", category: TrackerCategory::Analytics, description: "Matomo Cloud web analytics" };
    let info_36 = TrackerInfo { company: "Piwik PRO", category: TrackerCategory::Analytics, description: "Piwik PRO analytics suite" };
    let info_37 = TrackerInfo { company: "Crazy Egg", category: TrackerCategory::Analytics, description: "Crazy Egg heatmaps" };
    let info_38 = TrackerInfo { company: "Mouseflow", category: TrackerCategory::Fingerprinting, description: "Mouseflow session replay" };
    db.insert("rlcdn.com", info_29);
    db.insert("id5-sync.com", info_30);
    db.insert("mc.yandex.ru", info_31);
    db.insert("metrika.yandex.ru", info_31);
    db.insert("an.yandex.ru", info_31);
    db.insert("hm.baidu.com", info_32);
    db.insert("pos.baidu.com", info_32);
    db.insert("alb.reddit.com", info_33);
    db.insert("events.redditmedia.com", info_33);
    db.insert("amplitude.com", info_34);
    db.insert("api.amplitude.com", info_34);
    db.insert("cdn.amplitude.com", info_34);
    db.insert("matomo.cloud", info_35);
    db.insert("cdn.matomo.cloud", info_35);
    db.insert("piwik.pro", info_36);
    db.insert("containers.piwik.pro", info_36);
    db.insert("crazyegg.com", info_37);
    db.insert("script.crazyegg.com", info_37);
    db.insert("mouseflow.com", info_38);
    db.insert("cdn.mouseflow.com", info_38);
}

/// Adds part 5 of the built-in table.
fn add_tracker_part_5(db: &mut TrackerDb)
    ensures
        final(db)@ == old(db)@
            .insert("luckyorange.com"@, tracker_info_39())
            .insert("luckyorange.net"@, tracker_info_39())
            .insert("smartlook.com"@, tracker_info_40())
            .insert("rec.smartlook.com"@, tracker_info_40())
            .insert("inspectlet.com"@, tracker_info_41())
            .insert("cdn.inspectlet.com"@, tracker_info_41())
            .insert("fingerprint.com"@, tracker_info_42())
            .insert("fpjs.io"@, tracker_info_42())
            .insert("fpcdn.io"@, tracker_info_42())
            .insert("pubmatic.com"@, tracker_info_43())
            .insert("ads.pubmatic.com"@, tracker_info_43())
            .insert("openx.net"@, tracker_info_44())
            .insert("us-u.openx.net"@, tracker_info_44())
            .insert("casalemedia.com"@, tracker_info_45())
            .insert("indexww.com"@, tracker_info_45())
            .insert("lijit.com"@, tracker_info_46())
            .insert("sovrn.com"@, tracker_info_46())
            .insert("ads.yahoo.com"@, tracker_info_47())
            .insert("analytics.yahoo.com"@, tracker_info_47())
            .insert("sp.analytics.yahoo.com"@, tracker_info_47()),
{
    let info_39 = TrackerInfo { company: "Lucky Orange", category: TrackerCategory::Fingerprinting, description: "Lucky Orange session recording" };
    let info_40 = TrackerInfo { company: "Smartlook", category: TrackerCategory::Fingerprinting, description: "Smartlook session recording" };
    let info_41 = TrackerInfo { company: "Inspectlet", category: TrackerCategory::Fingerprinting, description: "Inspectlet session recording" };
    let info_42 = TrackerInfo { company: "FingerprintJS", category: TrackerCategory::Fingerprinting, description: "FingerprintJS browser fingerprinting" };
    let info_43 = TrackerInfo { company: "PubMatic", category: TrackerCategory::Advertising, description: "PubMatic supply-side platform" };
    let info_44 = TrackerInfo { company: "OpenX", category: TrackerCategory::Advertising, description: "OpenX ad exchange" };
    let info_45 = TrackerInfo { company: "Index Exchange", category: TrackerCategory::Advertising, description: "Index Exchange ad exchange" };
    let info_46 = TrackerInfo { company: "Sovrn", category: TrackerCategory::Advertising, description: "Sovrn publisher advertising" };
    let info_47 = TrackerInfo { company: "Yahoo", category: TrackerCategory::Advertising, description: "Yahoo advertising and analytics" };
    db.insert("luckyorange.com", info_39);
    db.insert("luckyorange.net", info_39);
    db.insert("smartlook.com", info_40);
    db.insert("rec.smartlook.com", info_40);
    db.insert("inspectlet.com", info_41);
    db.insert("cdn.inspectlet.com", info_41);
    db.insert("fingerprint.com", info_42);
    db.insert("fpjs.io", info_42);
    db.insert("fpcdn.io", info_42);
    db.insert("pubmatic.com", info_43);
    db.insert("ads.pubmatic.com", info_43);
    db.insert("openx.net", info_44);
    db.insert("us-u.openx.net", info_44);
    db.insert("casalemedia.com", info_45);
    db.insert("indexww.com", info_45);
    db.insert("lijit.com", info_46);
    db.insert("sovrn.com", info_46);
    db.insert("ads.yahoo.com", info_47);
    db.insert("analytics.yahoo.com", info_47);
    db.insert("sp.analytics.yahoo.com", info_47);
}

/// Adds part 6 of the built-in table.
fn add_tracker_part_6(db: &mut TrackerDb)
    ensures
        final(db)@ == old(db)@
            .insert("adroll.com"@, tracker_info_48())
            .insert("d.adroll.com"@, tracker_info_48())
            .insert("smartadserver.com"@, tracker_info_49())
            .insert("sascdn.com"@, tracker_info_49())
            .insert("teads.tv"@, tracker_info_50())
            .insert("a.teads.tv"@, tracker_info_50())
            .insert("sharethrough.com"@, tracker_info_51())
            .insert("btlr.sharethrough.com"@, tracker_info_51())
            .insert("3lift.com"@, tracker_info_52())
            .insert("tlx.3lift.com"@, tracker_info_52())
            .insert("zetaglobal.net"@, tracker_info_53())
            .insert("rezync.com"@, tracker_info_53())
            .insert("crwdcntrl.net"@, tracker_info_54())
            .insert("lotame.com"@, tracker_info_54())
            .insert("tapad.com"@, tracker_info_55())
            .insert("pixel.tapad.com"@, tracker_info_55())
            .insert("agkn.com"@, tracker_info_56())
            .insert("neustar.biz"@, tracker_info_56())
            .insert("imrworldwide.com"@, tracker_info_57())
            .insert("nielsen.com"@, tracker_info_57()),
{
    let info_48 = TrackerInfo { company: "AdRoll", category: TrackerCategory::Advertising, description: "AdRoll retargeting" };
    let info_49 = TrackerInfo { company: "Equativ", category: TrackerCategory::Advertising, description: "Equativ (Smart AdServer) ad serving" };
    let info_50 = TrackerInfo { company: "Teads", category: TrackerCategory::Advertising, description: "Teads video advertising" };
    let info_51 = TrackerInfo { company: "Sharethrough", category: TrackerCategory::Advertising, description: "Sharethrough native advertising" };
    let info_52 = TrackerInfo { company: "TripleLift", category: TrackerCategory::Advertising, description: "TripleLift native advertising" };
    let info_53 = TrackerInfo { company: "Zeta Global", category: TrackerCategory::Advertising, description: "Zeta Global marketing data" };
    let info_54 = TrackerInfo { company: "Lotame", category: TrackerCategory::Fingerprinting, description: "Lotame data management platform" };
    let info_55 = TrackerInfo { company: "Tapad", category: TrackerCategory::Fingerprinting, description: "Tapad cross-device tracking" };
    let info_56 = TrackerInfo { company: "Neustar", category: TrackerCategory::Fingerprinting, description: "Neustar identity resolution" };
    let info_57 = TrackerInfo { company: "Nielsen", category: TrackerCategory::Analytics, description: "Nielsen audience measurement" };
    db.insert("adroll.com", info_48);
    db.insert("d.adroll.com", info_48);
    db.insert("smartadserver.com", info_49);
    db.insert("sascdn.com", info_49);
    db.insert("teads.tv", info_50);
    db.insert("a.teads.tv", info_50);
    db.insert("sharethrough.com", info_51);
    db.insert("btlr.sharethrough.com", info_51);
    db.insert("3lift.com", info_52);
    db.insert("tlx.3lift.com", info_52);
    db.insert("zetaglobal.net", info_53);
    db.insert("rezync.com", info_53);
    db.insert("crwdcntrl.net", info_54);
    db.insert("lotame.com", info_54);
    db.insert("tapad.com", info_55);
    db.insert("pixel.tapad.com", info_55);
    db.insert("agkn.com", info_56);
    db.insert("neustar.biz", info_56);
    db.insert("imrworldwide.com", info_57);
    db.insert("nielsen.com", info_57);
}

/// Adds part 7 of the built-in table.
fn add_tracker_part_7(db: &mut TrackerDb)
    ensures
        final(db)@ == old(db)@
            .insert("chartbeat.com"@, tracker_info_58())
            .insert("chartbeat.net"@, tracker_info_58())
            .insert("static.chartbeat.com"@, tracker_info_58())
            .insert("parsely.com"@, tracker_info_59())
            .insert("cdn.parsely.com"@, tracker_info_59())
            .insert("kissmetrics.com"@, tracker_info_60())
            .insert("i.kissmetrics.io"@, tracker_info_60())
            .insert("hs-analytics.net"@, tracker_info_61())
            .insert("hubspot.com"@, tracker_info_61())
            .insert("hs-scripts.com"@, tracker_info_61())
            .insert("pardot.com"@, tracker_info_62())
            .insert("krxd.net"@, tracker_info_62())
            .insert("exacttarget.com"@, tracker_info_62())
            .insert("marketo.net"@, tracker_info_63())
            .insert("mktoresp.com"@, tracker_info_63())
            .insert("intercom.io"@, tracker_info_64())
            .insert("widget.intercom.io"@, tracker_info_64())
            .insert("branch.io"@, tracker_info_65())
            .insert("app.link"@, tracker_info_65())
            .insert("appsflyer.com"@, tracker_info_66()),
{
    let info_58 = TrackerInfo { company: "Chartbeat", category: TrackerCategory::Analytics, description: "Chartbeat real-time analytics" };
    let info_59 = TrackerInfo { company: "Parse.ly", category: TrackerCategory::Analytics, description: "Parse.ly content analytics" };
    let info_60 = TrackerInfo { company: "Kissmetrics", category: TrackerCategory::Analytics, description: "Kissmetrics behavioral analytics" };
    let info_61 = TrackerInfo { company: "HubSpot", category: TrackerCategory::Analytics, description: "HubSpot marketing analytics" };
    let info_62 = TrackerInfo { company: "Salesforce", category: TrackerCategory::Analytics, description: "Salesforce marketing tracking" };
    let info_63 = TrackerInfo { company: "Marketo", category: TrackerCategory::Analytics, description: "Marketo marketing automation tracking" };
    let info_64 = TrackerInfo { company: "Intercom", category: TrackerCategory::Analytics, description: "Intercom messaging and tracking" };
    let info_65 = TrackerInfo { company: "Branch", category: TrackerCategory::Analytics, description: "Branch deep-link attribution" };
    let info_66 = TrackerInfo { company: "AppsFlyer", category: TrackerCategory::Analytics, description: "AppsFlyer mobile attribution" };
    db.insert("chartbeat.com", info_58);
    db.insert("chartbeat.net", info_58);
    db.insert("static.chartbeat.com", info_58);
    db.insert("parsely.com", info_59);
    db.insert("cdn.parsely.com", info_59);
    db.insert("kissmetrics.com", info_60);
    db.insert("i.kissmetrics.io", info_60);
    db.insert("hs-analytics.net", info_61);
    db.insert("hubspot.com", info_61);
    db.insert("hs-scripts.com", info_61);
    db.insert("pardot.com", info_62);
    db.insert("krxd.net", info_62);
    db.insert("exacttarget.com", info_62);
    db.insert("marketo.net", info_63);
    db.insert("mktoresp.com", info_63);
    db.insert("intercom.io", info_64);
    db.insert("widget.intercom.io", info_64);
    db.insert("branch.io", info_65);
    db.insert("app.link", info_65);
    db.insert("appsflyer.com", info_66);
}

/// Adds part 8 of the built-in table.
fn add_tracker_part_8(db: &mut TrackerDb)
    ensures
        final(db)@ == old(db)@
            .insert("onelink.me"@, tracker_info_66())
            .insert("adjust.com"@, tracker_info_67())
            .insert("app.adjust.com"@, tracker_info_67())
            .insert("akamaihd.net"@, tracker_info_68())
            .insert("akamaized.net"@, tracker_info_68())
            .insert("go-mpulse.net"@, tracker_info_68())
            .insert("fastly.net"@, tracker_info_69())
            .insert("fastly-insights.com"@, tracker_info_69())
            .insert("disqus.com"@, tracker_info_70())
            .insert("disquscdn.com"@, tracker_info_70())
            .insert("sharethis.com"@, tracker_info_71())
            .insert("platform-api.sharethis.com"@, tracker_info_71())
            .insert("q.quora.com"@, tracker_info_72())
            .insert("quoracdn.net"@, tracker_info_72())
            .insert("googleoptimize.com"@, tracker_info_1())
            .insert("ssl.google-analytics.com"@, tracker_info_1())
            .insert("px.ads.linkedin.com"@, tracker_info_9())
            .insert("byteoversea.com"@, tracker_info_10())
            .insert("pinterest.com"@, tracker_info_11())
            .insert("ads-twitter.com"@, tracker_info_8()),
{
    let info_1 = TrackerInfo { company: "Google", category: TrackerCategory::Analytics, description: "Google Analytics tracking" };
    let info_8 = TrackerInfo { company: "Twitter/X", category: TrackerCategory::Social, description: "Twitter/X social tracking" };
    let info_9 = TrackerInfo { company: "LinkedIn", category: TrackerCategory::Social, description: "LinkedIn Insight tracking" };
    let info_10 = TrackerInfo { company: "TikTok", category: TrackerCategory::Social, description: "TikTok pixel tracking" };
    let info_11 = TrackerInfo { company: "Pinterest", category: TrackerCategory::Social, description: "Pinterest conversion tracking" };
    let info_66 = TrackerInfo { company: "AppsFlyer", category: TrackerCategory::Analytics, description: "AppsFlyer mobile attribution" };
    let info_67 = TrackerInfo { company: "Adjust", category: TrackerCategory::Analytics, description: "Adjust mobile attribution" };
    let info_68 = TrackerInfo { company: "Akamai", category: TrackerCategory::Content, description: "Akamai CDN and real-user monitoring" };
    let info_69 = TrackerInfo { company: "Fastly", category: TrackerCategory::Content, description: "Fastly CDN and insights" };
    let info_70 = TrackerInfo { company: "Disqus", category: TrackerCategory::Social, description: "Disqus comment widget tracking" };
    let info_71 = TrackerInfo { company: "ShareThis", category: TrackerCategory::Social, description: "ShareThis share buttons tracking" };
    let info_72 = TrackerInfo { company: "Quora", category: TrackerCategory::Social, description: "Quora conversion pixel" };
    db.insert("onelink.me", info_66);
    db.insert("adjust.com", info_67);
    db.insert("app.adjust.com", info_67);
    db.insert("akamaihd.net", info_68);
    db.insert("akamaized.net", info_68);
    db.insert("go-mpulse.net", info_68);
    db.insert("fastly.net", info_69);
    db.insert("fastly-insights.com", info_69);
    db.insert("disqus.com", info_70);
    db.insert("disquscdn.com", info_70);
    db.insert("sharethis.com", info_71);
    db.insert("platform-api.sharethis.com", info_71);
    db.insert("q.quora.com", info_72);
    db.insert("quoracdn.net", info_72);
    db.insert("googleoptimize.com", info_1);
    db.insert("ssl.google-analytics.com", info_1);
    db.insert("px.ads.linkedin.com", info_9);
    db.insert("byteoversea.com", info_10);
    db.insert("pinterest.com", info_11);
    db.insert("ads-twitter.com", info_8);
}

/// Adds part 9 of the built-in table.
fn add_tracker_part_9(db: &mut TrackerDb)
    ensures
        final(db)@ == old(db)@
            .insert("analytics.twitter.com"@, tracker_info_8())
            .insert("tr.snapchat.com"@, tracker_info_25())
            .insert("newrelic.com"@, tracker_info_13()),
{
    let info_8 = TrackerInfo { company: "Twitter/X", category: TrackerCategory::Social, description: "Twitter/X social tracking" };
    let info_13 = TrackerInfo { company: "New Relic", category: TrackerCategory::Analytics, description: "New Relic performance monitoring" };
    let info_25 = TrackerInfo { company: "Snap Inc.", category: TrackerCategory::Social, description: "Snapchat pixel tracking" };
    db.insert("analytics.twitter.com", info_8);
    db.insert("tr.snapchat.com", info_25);
    db.insert("newrelic.com", info_13);
}

/// The built-in database of known tracker domains.
pub fn build_tracker_db() -> (r: TrackerDb)
    ensures
        r@ == tracker_table(),
{
    let mut db = TrackerDb::new();
    add_tracker_part_1(&mut db);
    add_tracker_part_2(&mut db);
    add_tracker_part_3(&mut db);
    add_tracker_part_4(&mut db);
    add_tracker_part_5(&mut db);
    add_tracker_part_6(&mut db);
    add_tracker_part_7(&mut db);
    add_tracker_part_8(&mut db);
    add_tracker_part_9(&mut db);
    db
}

/// `s` is where a name checked for `d` starts: `d` itself (at 0), or the part
/// after a dot that still holds a dot, i.e. every parent domain of at least two
/// labels.
pub open spec fn candidate_start(d: Seq<char>, s: int) -> bool {
    s == 0 || (1 <= s <= d.len() && d[s - 1] == '.' && exists|q: int|
        s <= q < d.len() && #[trigger] d[q] == '.')
}

/// The name checked at `s` is a known tracker.
pub open spec fn tracked_at(db: Map<Seq<char>, TrackerInfo>, d: Seq<char>, s: int) -> bool {
    candidate_start(d, s) && db.contains_key(d.skip(s))
}

/// `s` is the most specific checked name of `d` that is a known tracker.
pub open spec fn first_tracked(db: Map<Seq<char>, TrackerInfo>, d: Seq<char>, s: int) -> bool {
    tracked_at(db, d, s) && forall|t: int| 0 <= t < s ==> !#[trigger] tracked_at(db, d, t)
}

/// What is known of a lowered domain: the entry of the domain itself if held,
/// else of its nearest parent domain (of at least two labels) that is held.
pub open spec fn lookup_lowered(db: Map<Seq<char>, TrackerInfo>, d: Seq<char>) -> Option<TrackerInfo> {
    if exists|s: int| first_tracked(db, d, s) {
        Some(db[d.skip(choose|s: int| first_tracked(db, d, s))])
    } else {
        None
    }
}

proof fn lemma_first_tracked_unique(db: Map<Seq<char>, TrackerInfo>, d: Seq<char>, s: int, t: int)
    requires
        first_tracked(db, d, s),
        first_tracked(db, d, t),
    ensures
        s == t,
{
    if s < t {
        assert(!tracked_at(db, d, s));
    }
    if t < s {
        assert(!tracked_at(db, d, t));
    }
}

proof fn lemma_first_tracked_exists(db: Map<Seq<char>, TrackerInfo>, d: Seq<char>, s: int)
    requires
        tracked_at(db, d, s),
    ensures
        exists|m: int| first_tracked(db, d, m),
    decreases s,
{
    if exists|t: int| 0 <= t < s && #[trigger] tracked_at(db, d, t) {
        let t = choose|t: int| 0 <= t < s && #[trigger] tracked_at(db, d, t);
        lemma_first_tracked_exists(db, d, t);
    } else {
        assert(first_tracked(db, d, s));
    }
}

/// What is known of an already lowered domain, as `lookup_lowered` says.
pub fn lookup_lowered_chars<'a>(db: &'a TrackerDb, d: &Vec<char>) -> (r: Option<&'a TrackerInfo>)
    ensures
        match r {
            Some(info) => lookup_lowered(db@, d@) == Some(*info),
            None => lookup_lowered(db@, d@) is None,
        },
{
    assert(d@.skip(0) =~= d@);
    if let Some(info) = db.get_chars(d) {
        assert(first_tracked(db@, d@, 0));
        proof {
            let m = choose|m: int| first_tracked(db@, d@, m);
            lemma_first_tracked_unique(db@, d@, 0, m);
        }
        return Some(info);
    }
    assert(!tracked_at(db@, d@, 0));
    match last_dot(d) {
        None => {
            assert forall|t: int| !#[trigger] tracked_at(db@, d@, t) by {
                if t != 0 && tracked_at(db@, d@, t) {
                    let q = choose|q: int| t <= q < d@.len() && #[trigger] d@[q] == '.';
                }
            }
            assert(!exists|s: int| first_tracked(db@, d@, s));
            None
        },
        Some(l) => {
            let mut p: usize = 0;
            while p < l
                invariant
                    p <= l < d@.len(),
                    d@[l as int] == '.',
                    forall|q: int| l < q < d@.len() ==> d@[q] != '.',
                    forall|t: int| 0 <= t <= p ==> !#[trigger] tracked_at(db@, d@, t),
                decreases l - p,
            {
                if d[p] == '.' {
                    let suffix = slice_chars(d, p + 1, d.len());
                    assert(suffix@ =~= d@.skip(p + 1));
                    if let Some(info) = db.get_chars(&suffix) {
                        assert(candidate_start(d@, p + 1)) by {
                            assert(d@[l as int] == '.');
                        }
                        assert(first_tracked(db@, d@, p + 1));
                        proof {
                            let m = choose|m: int| first_tracked(db@, d@, m);
                            lemma_first_tracked_unique(db@, d@, p + 1, m);
                        }
                        return Some(info);
                    }
                }
                assert(!tracked_at(db@, d@, p + 1));
                p += 1;
            }
            assert forall|t: int| !#[trigger] tracked_at(db@, d@, t) by {
                if t > l && tracked_at(db@, d@, t) {
                    let q = choose|q: int| t <= q < d@.len() && #[trigger] d@[q] == '.';
                }
            }
            assert(!exists|s: int| first_tracked(db@, d@, s));
            None
        },
    }
}

/// What is known of `domain`, matched case-insensitively: the entry of the
/// domain itself, else of its nearest parent domain of at least two labels.
pub fn lookup_domain<'a>(db: &'a TrackerDb, domain: &str) -> (r: Option<&'a TrackerInfo>)
    ensures
        match r {
            Some(info) => lookup_lowered(db@, lowercase(domain@)) == Some(*info),
            None => lookup_lowered(db@, lowercase(domain@)) is None,
        },
        is_ascii_chars(domain@) ==> lowercase(domain@) == domain@.map_values(|c: char| ascii_lower(c)),
{
    let lowered = to_lowercase(domain);
    let d = chars_of(lowered.as_str());
    lookup_lowered_chars(db, &d)
}

/// A domain that is itself in the database is found with its own entry.
pub proof fn lemma_lookup_exact(db: Map<Seq<char>, TrackerInfo>, d: Seq<char>)
    requires
        db.contains_key(d),
    ensures
        lookup_lowered(db, d) == Some(db[d]),
{
    assert(d.skip(0) =~= d);
    assert(first_tracked(db, d, 0));
    let m = choose|m: int| first_tracked(db, d, m);
    lemma_first_tracked_unique(db, d, 0, m);
}

/// Any subdomain of a tracker domain of at least two labels is found as a
/// tracker (with the entry of its nearest tracked parent).
pub proof fn lemma_lookup_subdomain(db: Map<Seq<char>, TrackerInfo>, t: Seq<char>, x: Seq<char>)
    requires
        db.contains_key(t),
        exists|q: int| 0 <= q < t.len() && t[q] == '.',
    ensures
        lookup_lowered(db, x + seq!['.'] + t) is Some,
{
    let d = x + seq!['.'] + t;
    let s: int = x.len() as int + 1;
    assert(d.skip(s) =~= t);
    let q = choose|q: int| 0 <= q < t.len() && t[q] == '.';
    assert(d[s + q] == '.');
    assert(candidate_start(d, s));
    assert(tracked_at(db, d, s));
    lemma_first_tracked_exists(db, d, s);
}

/// Whatever is found is the entry of the domain itself or of one of its
/// checked parent domains.
pub proof fn lemma_lookup_from_database(db: Map<Seq<char>, TrackerInfo>, d: Seq<char>)
    ensures
        lookup_lowered(db, d) matches Some(info) ==> exists|s: int|
            #[trigger] tracked_at(db, d, s) && db[d.skip(s)] == info,
{
    if exists|s: int| first_tracked(db, d, s) {
        let s = choose|s: int| first_tracked(db, d, s);
        assert(tracked_at(db, d, s));
    }
}

/// Looking up an ASCII domain ignores letter case: the lookup of the domain
/// and the lookup of the domain already lowered go by the same lowered name.
pub proof fn lemma_lookup_of_lowered(db: Map<Seq<char>, TrackerInfo>, d: Seq<char>)
    requires
        is_ascii_chars(d),
    ensures
        is_ascii_chars(d.map_values(|c: char| ascii_lower(c))),
        lookup_lowered(db, d.map_values(|c: char| ascii_lower(c)).map_values(|c: char| ascii_lower(c))) == lookup_lowered(
            db,
            d.map_values(|c: char| ascii_lower(c)),
        ),
{
    lemma_ascii_lower_twice(d);
}

} // verus!
