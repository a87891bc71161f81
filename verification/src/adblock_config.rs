//! Ad-blocking configuration: filter lists, whitelist and update settings.

use vstd::prelude::*;
use crate::text::{chars_of, contains_in, contains_seq, occurs_at, owned, str_eq};

verus! {

/// A downloadable filter list with its metadata.
#[derive(Debug, Clone)]
pub struct FilterListUrl {
    pub name: String,
    pub url: String,
    pub enabled: bool,
}

impl View for FilterListUrl {
    type V = (Seq<char>, Seq<char>, bool);

    open spec fn view(&self) -> (Seq<char>, Seq<char>, bool) {
        (self.name@, self.url@, self.enabled)
    }
}

/// The plain-value view of a list of strings.
pub open spec fn strings_view(v: Seq<String>) -> Seq<Seq<char>> {
    v.map_values(|s: String| s@)
}

/// The plain-value view of a list of filter lists.
pub open spec fn filters_view(v: Seq<FilterListUrl>) -> Seq<(Seq<char>, Seq<char>, bool)> {
    v.map_values(|f: FilterListUrl| f@)
}

/// `s` without any occurrence of `d`, order kept.
pub open spec fn without(s: Seq<Seq<char>>, d: Seq<char>) -> Seq<Seq<char>>
    decreases s.len(),
{
    if s.len() == 0 {
        s
    } else if s.last() == d {
        without(s.drop_last(), d)
    } else {
        without(s.drop_last(), d).push(s.last())
    }
}

/// The URLs of the enabled filter lists of `f`, in order.
pub open spec fn enabled_urls(f: Seq<(Seq<char>, Seq<char>, bool)>) -> Seq<Seq<char>>
    decreases f.len(),
{
    if f.len() == 0 {
        Seq::empty()
    } else if f.last().2 {
        enabled_urls(f.drop_last()).push(f.last().1)
    } else {
        enabled_urls(f.drop_last())
    }
}

/// `f` with the `enabled` flag of every list named `name` set to `on`.
pub open spec fn with_enabled(
    f: Seq<(Seq<char>, Seq<char>, bool)>,
    name: Seq<char>,
    on: bool,
) -> Seq<(Seq<char>, Seq<char>, bool)> {
    Seq::new(f.len(), |i: int| (f[i].0, f[i].1, if f[i].0 == name { on } else { f[i].2 }))
}

/// Configuration of the ad-blocking engine.
#[derive(Debug, Clone)]
pub struct AdBlockConfig {
    /// Whether ad blocking is on.
    pub enabled: bool,
    /// Paths of the local filter-list files.
    pub filter_lists: Vec<String>,
    /// Filter lists to download.
    pub filter_urls: Vec<FilterListUrl>,
    /// Domains never blocked.
    pub whitelist_domains: Vec<String>,
    /// Aggressive mode (may block more content).
    pub aggressive_mode: bool,
    /// Whether filters are updated automatically.
    pub auto_update: bool,
    /// Hours between automatic updates.
    pub update_interval_hours: u64,
}

impl AdBlockConfig {
    /// The whitelisted domains as plain values.
    pub open spec fn whitelist(&self) -> Seq<Seq<char>> {
        strings_view(self.whitelist_domains@)
    }

    /// The downloadable filter lists as plain values.
    pub open spec fn filters(&self) -> Seq<(Seq<char>, Seq<char>, bool)> {
        filters_view(self.filter_urls@)
    }

    /// The local filter-list paths as plain values.
    pub open spec fn list_paths(&self) -> Seq<Seq<char>> {
        strings_view(self.filter_lists@)
    }

    /// `self` is the default configuration.
    pub open spec fn is_default(&self) -> bool {
        &&& self.enabled
        &&& self.list_paths() == seq![
            "resources/adblock/easylist.txt"@,
            "resources/adblock/easyprivacy.txt"@,
        ]
        &&& self.filters() == seq![
            ("EasyList"@, "https://easylist.to/easylist/easylist.txt"@, true),
            ("EasyPrivacy"@, "https://easylist.to/easylist/easyprivacy.txt"@, true),
        ]
        &&& self.whitelist().len() == 0
        &&& !self.aggressive_mode
        &&& self.auto_update
        &&& self.update_interval_hours == 24
    }

    /// `self` and `other` agree on everything but the whitelist.
    pub open spec fn same_but_whitelist(&self, other: &Self) -> bool {
        &&& self.enabled == other.enabled
        &&& self.list_paths() == other.list_paths()
        &&& self.filters() == other.filters()
        &&& self.aggressive_mode == other.aggressive_mode
        &&& self.auto_update == other.auto_update
        &&& self.update_interval_hours == other.update_interval_hours
    }

    /// `self` and `other` agree on everything but the downloadable filter lists.
    pub open spec fn same_but_filters(&self, other: &Self) -> bool {
        &&& self.enabled == other.enabled
        &&& self.list_paths() == other.list_paths()
        &&& self.whitelist() == other.whitelist()
        &&& self.aggressive_mode == other.aggressive_mode
        &&& self.auto_update == other.auto_update
        &&& self.update_interval_hours == other.update_interval_hours
    }

    /// A new configuration with the default values.
    pub fn new() -> (r: Self)
        ensures
            r.is_default(),
    {
        Self::default()
    }

    /// Adds `domain` to the whitelist unless it is already there.
    pub fn add_whitelist_domain(&mut self, domain: String)
        ensures
            final(self).whitelist() == if old(self).whitelist().contains(domain@) {
                old(self).whitelist()
            } else {
                old(self).whitelist().push(domain@)
            },
            final(self).same_but_whitelist(old(self)),
    {
        let mut i: usize = 0;
        while i < self.whitelist_domains.len()
            invariant
                i <= self.whitelist_domains@.len(),
                forall|j: int| 0 <= j < i ==> self.whitelist()[j] != domain@,
            decreases self.whitelist_domains@.len() - i,
        {
            if self.whitelist_domains[i] == domain {
                assert(self.whitelist()[i as int] == domain@);
                return;
            }
            i = i + 1;
        }
        let ghost before = self.whitelist();
        self.whitelist_domains.push(domain);
        assert(self.whitelist() =~= before.push(domain@));
    }

    /// Removes every occurrence of `domain` from the whitelist.
    pub fn remove_whitelist_domain(&mut self, domain: &str)
        ensures
            final(self).whitelist() == without(old(self).whitelist(), domain@),
            final(self).same_but_whitelist(old(self)),
    {
        let ghost all = self.whitelist();
        let mut kept: Vec<String> = Vec::new();
        let mut i: usize = 0;
        while i < self.whitelist_domains.len()
            invariant
                i <= self.whitelist_domains@.len(),
                all == self.whitelist(),
                strings_view(kept@) == without(all.take(i as int), domain@),
            decreases self.whitelist_domains@.len() - i,
        {
            assert(all.take(i + 1).drop_last() =~= all.take(i as int));
            if !str_eq(self.whitelist_domains[i].as_str(), domain) {
                let ghost before = strings_view(kept@);
                kept.push(self.whitelist_domains[i].clone());
                assert(strings_view(kept@) =~= before.push(all[i as int]));
            }
            i = i + 1;
        }
        assert(all.take(i as int) =~= all);
        self.whitelist_domains = kept;
    }

    /// Whether `domain` contains one of the whitelisted domains.
    pub fn is_whitelisted(&self, domain: &str) -> (r: bool)
        ensures
            r == exists|i: int|
                0 <= i < self.whitelist().len() && contains_seq(domain@, #[trigger] self.whitelist()[i]),
    {
        let text = chars_of(domain);
        let mut i: usize = 0;
        while i < self.whitelist_domains.len()
            invariant
                i <= self.whitelist_domains@.len(),
                text@ == domain@,
                forall|j: int| 0 <= j < i ==> !contains_seq(domain@, #[trigger] self.whitelist()[j]),
            decreases self.whitelist_domains@.len() - i,
        {
            let entry = chars_of(self.whitelist_domains[i].as_str());
            if contains_in(&text, &entry) {
                assert(contains_seq(domain@, self.whitelist()[i as int]));
                return true;
            }
            i = i + 1;
        }
        false
    }

    /// Enables every filter list named `name`.
    pub fn enable_filter_list(&mut self, name: &str)
        ensures
            final(self).filters() == with_enabled(old(self).filters(), name@, true),
            final(self).same_but_filters(old(self)),
    {
        self.set_filter_enabled(name, true);
    }

    /// Disables every filter list named `name`.
    pub fn disable_filter_list(&mut self, name: &str)
        ensures
            final(self).filters() == with_enabled(old(self).filters(), name@, false),
            final(self).same_but_filters(old(self)),
    {
        self.set_filter_enabled(name, false);
    }

    /// Sets the `enabled` flag of every filter list named `name` to `on`.
    fn set_filter_enabled(&mut self, name: &str, on: bool)
        ensures
            final(self).filters() == with_enabled(old(self).filters(), name@, on),
            final(self).same_but_filters(old(self)),
    {
        let ghost before = self.filters();
        let mut i: usize = 0;
        while i < self.filter_urls.len()
            invariant
                i <= self.filter_urls@.len(),
                self.filters().len() == before.len(),
                forall|j: int|
                    0 <= j < i ==> #[trigger] self.filters()[j] == (
                        before[j].0,
                        before[j].1,
                        if before[j].0 == name@ {
                            on
                        } else {
                            before[j].2
                        },
                    ),
                forall|j: int| i <= j < before.len() ==> #[trigger] self.filters()[j] == before[j],
                self.same_but_filters(old(self)),
            decreases self.filter_urls@.len() - i,
        {
            let ghost prev = self.filter_urls@;
            let ghost prev_f = self.filters();
            assert(prev_f[i as int] == prev[i as int]@);
            if str_eq(self.filter_urls[i].name.as_str(), name) {
                let mut entry = self.filter_urls.remove(i);
                entry.enabled = on;
                let ghost changed = entry;
                self.filter_urls.insert(i, entry);
                assert(self.filter_urls@ =~= prev.update(i as int, changed));
                assert(self.filters() =~= prev_f.update(i as int, changed@));
            }
            i = i + 1;
        }
        assert(self.filters() =~= with_enabled(before, name@, on));
    }

    /// The URLs of the enabled filter lists, in order.
    pub fn get_enabled_filter_urls(&self) -> (r: Vec<String>)
        ensures
            strings_view(r@) == enabled_urls(self.filters()),
    {
        let ghost all = self.filters();
        let mut urls: Vec<String> = Vec::new();
        let mut i: usize = 0;
        while i < self.filter_urls.len()
            invariant
                i <= self.filter_urls@.len(),
                all == self.filters(),
                strings_view(urls@) == enabled_urls(all.take(i as int)),
            decreases self.filter_urls@.len() - i,
        {
            assert(all.take(i + 1).drop_last() =~= all.take(i as int));
            assert(all[i as int] == self.filter_urls@[i as int]@);
            if self.filter_urls[i].enabled {
                let ghost before = strings_view(urls@);
                urls.push(self.filter_urls[i].url.clone());
                assert(strings_view(urls@) =~= before.push(all[i as int].1));
            }
            i = i + 1;
        }
        assert(all.take(i as int) =~= all);
        urls
    }

    /// Adds an enabled filter list named `name` downloaded from `url`.
    pub fn add_custom_filter_list(&mut self, name: String, url: String)
        ensures
            final(self).filters() == old(self).filters().push((name@, url@, true)),
            final(self).same_but_filters(old(self)),
    {
        let ghost before = self.filters();
        self.filter_urls.push(FilterListUrl { name, url, enabled: true });
        assert(self.filters() =~= before.push((name@, url@, true)));
    }
}

impl Default for AdBlockConfig {
    fn default() -> (r: Self)
        ensures
            r.is_default(),
    {
        let mut filter_lists: Vec<String> = Vec::new();
        filter_lists.push(owned("resources/adblock/easylist.txt"));
        filter_lists.push(owned("resources/adblock/easyprivacy.txt"));
        let mut filter_urls: Vec<FilterListUrl> = Vec::new();
        filter_urls.push(
            FilterListUrl {
                name: owned("EasyList"),
                url: owned("https://easylist.to/easylist/easylist.txt"),
                enabled: true,
            },
        );
        filter_urls.push(
            FilterListUrl {
                name: owned("EasyPrivacy"),
                url: owned("https://easylist.to/easylist/easyprivacy.txt"),
                enabled: true,
            },
        );
        let r = AdBlockConfig {
            enabled: true,
            filter_lists,
            filter_urls,
            whitelist_domains: Vec::new(),
            aggressive_mode: false,
            auto_update: true,
            update_interval_hours: 24,
        };
        assert(r.list_paths() =~= seq![
            "resources/adblock/easylist.txt"@,
            "resources/adblock/easyprivacy.txt"@,
        ]);
        assert(r.filters() =~= seq![
            ("EasyList"@, "https://easylist.to/easylist/easylist.txt"@, true),
            ("EasyPrivacy"@, "https://easylist.to/easylist/easyprivacy.txt"@, true),
        ]);
        assert(r.whitelist() =~= Seq::<Seq<char>>::empty());
        r
    }
}

/// Advanced settings for specific uses.
#[derive(Debug, Clone)]
pub struct AdvancedConfig {
    /// Block WebSockets used for tracking.
    pub block_tracking_websockets: bool,
    /// Block WebRTC to avoid IP leaks.
    pub block_webrtc: bool,
    /// Block fingerprinting requests.
    pub block_fingerprinting: bool,
    /// Block third-party cookies.
    pub block_third_party_cookies: bool,
    /// Cache blocking decisions.
    pub enable_cache: bool,
    /// Largest number of cached decisions.
    pub cache_size: usize,
}

impl Default for AdvancedConfig {
    fn default() -> (r: Self)
        ensures
            r.block_tracking_websockets,
            !r.block_webrtc,
            r.block_fingerprinting,
            !r.block_third_party_cookies,
            r.enable_cache,
            r.cache_size == 10000,
    {
        AdvancedConfig {
            block_tracking_websockets: true,
            block_webrtc: false,
            block_fingerprinting: true,
            block_third_party_cookies: false,
            enable_cache: true,
            cache_size: 10000,
        }
    }
}

/// A whitelisted domain whitelists every name that contains it, such as
/// its subdomains.
pub proof fn law_whitelist_covers_subdomains(
    whitelist: Seq<Seq<char>>,
    domain: Seq<char>,
    prefix: Seq<char>,
)
    requires
        whitelist.contains(domain),
    ensures
        exists|i: int| 0 <= i < whitelist.len() && contains_seq(prefix + domain, #[trigger] whitelist[i]),
{
    let i = choose|i: int| 0 <= i < whitelist.len() && whitelist[i] == domain;
    let name = prefix + domain;
    assert(name.subrange(prefix.len() as int, (prefix.len() + domain.len()) as int) =~= domain);
    assert(occurs_at(name, domain, prefix.len() as int));
    assert(contains_seq(name, whitelist[i]));
}

/// After a domain is added, the whitelist holds it.
pub proof fn law_added_domain_is_listed(whitelist: Seq<Seq<char>>, domain: Seq<char>)
    ensures
        (if whitelist.contains(domain) {
            whitelist
        } else {
            whitelist.push(domain)
        }).contains(domain),
{
    if !whitelist.contains(domain) {
        assert(whitelist.push(domain)[whitelist.len() as int] == domain);
    }
}

/// After a domain is removed, the whitelist no longer holds it, and every
/// other domain it held is still there.
pub proof fn law_removed_domain_is_gone(whitelist: Seq<Seq<char>>, domain: Seq<char>, other: Seq<char>)
    ensures
        !without(whitelist, domain).contains(domain),
        other != domain ==> (without(whitelist, domain).contains(other) <==> whitelist.contains(
            other,
        )),
    decreases whitelist.len(),
{
    if whitelist.len() > 0 {
        let rest = whitelist.drop_last();
        law_removed_domain_is_gone(rest, domain, other);
        assert(whitelist =~= rest.push(whitelist.last()));
        if whitelist.last() != domain {
            let w = without(rest, domain);
            assert(w.push(whitelist.last())[w.len() as int] == whitelist.last());
            if other != domain {
                if whitelist.contains(other) && other != whitelist.last() {
                    let k = choose|k: int| 0 <= k < whitelist.len() && whitelist[k] == other;
                    assert(rest[k] == other);
                }
                if w.push(whitelist.last()).contains(other) && other != whitelist.last() {
                    let k = choose|k: int| 0 <= k < w.len() + 1 && w.push(whitelist.last())[k] == other;
                    assert(w[k] == other);
                }
                if rest.contains(other) {
                    let k = choose|k: int| 0 <= k < rest.len() && rest[k] == other;
                    assert(whitelist[k] == other);
                }
                if w.contains(other) {
                    let k = choose|k: int| 0 <= k < w.len() && w[k] == other;
                    assert(w.push(whitelist.last())[k] == other);
                }
            }
        } else if other != domain {
            if whitelist.contains(other) {
                let k = choose|k: int| 0 <= k < whitelist.len() && whitelist[k] == other;
                assert(rest[k] == other);
            }
            if rest.contains(other) {
                let k = choose|k: int| 0 <= k < rest.len() && rest[k] == other;
                assert(whitelist[k] == other);
            }
        }
    }
}

/// Enabling or disabling lists by name twice keeps only the last setting.
pub proof fn law_last_toggle_wins(
    f: Seq<(Seq<char>, Seq<char>, bool)>,
    name: Seq<char>,
    first: bool,
    second: bool,
)
    ensures
        with_enabled(with_enabled(f, name, first), name, second) == with_enabled(f, name, second),
{
    assert(with_enabled(with_enabled(f, name, first), name, second) =~= with_enabled(
        f,
        name,
        second,
    ));
}

/// The lists of `f` not named `name`.
pub open spec fn other_names(name: Seq<char>) -> spec_fn((Seq<char>, Seq<char>, bool)) -> bool {
    |e: (Seq<char>, Seq<char>, bool)| e.0 != name
}

/// Disabling the lists named `name` removes exactly their URLs from the
/// enabled URLs: what is left are the URLs of enabled lists with another name.
pub proof fn law_disabled_lists_are_not_fetched(
    f: Seq<(Seq<char>, Seq<char>, bool)>,
    name: Seq<char>,
)
    ensures
        enabled_urls(with_enabled(f, name, false)) == enabled_urls(f.filter(other_names(name))),
    decreases f.len(),
{
    reveal(Seq::filter);
    if f.len() > 0 {
        let rest = f.drop_last();
        let w = with_enabled(f, name, false);
        law_disabled_lists_are_not_fetched(rest, name);
        assert(w.drop_last() =~= with_enabled(rest, name, false));
        let kept = rest.filter(other_names(name));
        if f.last().0 == name {
            assert(f.filter(other_names(name)) == kept);
        } else {
            assert(f.filter(other_names(name)) == kept.push(f.last()));
            assert(kept.push(f.last()).drop_last() =~= kept);
            assert(w.last() == f.last());
        }
    }
}

} // verus!
