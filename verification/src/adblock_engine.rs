//! The ad-blocking engine: loads filter lists into `adblock`'s engine and
//! decides whether a request is blocked.

use vstd::prelude::*;
use std::sync::Arc;
use adblock::Engine;
use adblock::lists::{FilterSet, ParseOptions};
use adblock::request::Request;
use crate::text::{
    chars_of, count_rule_lines, count_rules, lemma_count_rules_concat, lemma_count_rules_single,
    lemma_newline_pieces_join, lemma_newline_pieces_single, newline_pieces, trim, RuleSyntax,
};

verus! {

#[verifier::external_type_specification]
#[verifier::external_body]
pub struct ExEngine(Engine);

#[verifier::external_type_specification]
#[verifier::external_body]
pub struct ExFilterSet(FilterSet);

#[verifier::external_type_specification]
#[verifier::external_body]
pub struct ExRequest(Request);

/// Whether `adblock::request::Request::new` accepts `url`: it does exactly
/// when `adblock`'s URL parser finds a host in it.
pub uninterp spec fn adblock_url_parses(url: Seq<char>) -> bool;

/// The filter lists an `adblock::lists::FilterSet` holds, in the order they
/// were added (each parsed with the default options).
pub uninterp spec fn filter_set_lists(set: FilterSet) -> Seq<Seq<char>>;

/// The filter lists an `adblock::Engine` was built from.
pub uninterp spec fn engine_lists(engine: Engine) -> Seq<Seq<char>>;

/// The URL, source URL and request type an `adblock::request::Request` was
/// made from.
pub uninterp spec fn request_fields(request: Request) -> (Seq<char>, Seq<char>, Seq<char>);

/// What `adblock::Engine::check_network_request` finds, for an engine built
/// from `lists`, for a request made from `url`, `source_url` and
/// `request_type`: whether a blocking rule matched, and whether an exception
/// rule matched.
pub uninterp spec fn adblock_match(
    lists: Seq<Seq<char>>,
    url: Seq<char>,
    source_url: Seq<char>,
    request_type: Seq<char>,
) -> (bool, bool);

/// `adblock::Engine::default`: an engine built from no filter list.
#[verifier::external_body]
fn empty_engine() -> (r: Engine)
    ensures
        engine_lists(r) == Seq::<Seq<char>>::empty(),
{
    Engine::default()
}

/// `adblock::lists::FilterSet::default`: a set with no filter list.
#[verifier::external_body]
fn empty_filter_set() -> (r: FilterSet)
    ensures
        filter_set_lists(r) == Seq::<Seq<char>>::empty(),
{
    FilterSet::default()
}

/// `adblock::lists::FilterSet::add_filter_list` with the default parse
/// options: the list is added after the others (its unparsable rules are
/// skipped when an engine is built).
#[verifier::external_body]
fn add_filter_list(set: &mut FilterSet, list: &str)
    ensures
        filter_set_lists(*final(set)) == filter_set_lists(*old(set)).push(list@),
{
    set.add_filter_list(list.to_string(), ParseOptions::default());
}

/// `adblock::Engine::new_with_filter_set`: an engine built from the lists of `set`.
#[verifier::external_body]
fn engine_from_filter_set(set: FilterSet) -> (r: Engine)
    ensures
        engine_lists(r) == filter_set_lists(set),
{
    Engine::new_with_filter_set(set)
}

/// `adblock::request::Request::new` for a request of unknown method; it
/// succeeds exactly when the URL parses, and the request is made from the
/// three strings.
#[verifier::external_body]
fn make_request(url: &str, source_url: &str, request_type: &str) -> (r: Option<Request>)
    ensures
        r is Some <==> adblock_url_parses(url@),
        r matches Some(q) ==> request_fields(q) == (url@, source_url@, request_type@),
{
    Request::new(url, source_url, request_type, "").ok()
}

/// `adblock::Engine::check_network_request`, reduced to whether a blocking
/// rule and whether an exception rule matched.
#[verifier::external_body]
fn check_request(engine: &Engine, request: &Request) -> (r: RuleMatch)
    ensures
        (r.matched, r.excepted) == adblock_match(
            engine_lists(*engine),
            request_fields(*request).0,
            request_fields(*request).1,
            request_fields(*request).2,
        ),
{
    let result = engine.check_network_request(request);
    RuleMatch { matched: result.filter.is_some(), excepted: result.exception.is_some() }
}

/// `Arc::clone`: another pointer to the same engine.
#[verifier::external_body]
fn share_engine(engine: &Arc<Engine>) -> (r: Arc<Engine>)
    ensures
        r == *engine,
{
    Arc::clone(engine)
}

/// What the engine found for a request.
#[derive(Debug, Clone, Copy, PartialEq, Eq)]
pub struct RuleMatch {
    /// A blocking rule matched.
    pub matched: bool,
    /// An exception (whitelist) rule matched.
    pub excepted: bool,
}

/// A request is blocked when blocking is on, the request could be built, a
/// blocking rule matched and no exception rule did.
pub open spec fn blocks(enabled: bool, check: Option<RuleMatch>) -> bool {
    enabled && match check {
        Some(m) => m.matched && !m.excepted,
        None => false,
    }
}

/// Whether an engine built from `lists`, with blocking on or off as
/// `enabled` says, blocks a request for `url` made by `source_url` for a
/// resource of type `request_type`: blocking is on, the URL parses, a
/// blocking rule matches and no exception rule does.
pub open spec fn blocked_by(
    enabled: bool,
    lists: Seq<Seq<char>>,
    url: Seq<char>,
    source_url: Seq<char>,
    request_type: Seq<char>,
) -> bool {
    let m = adblock_match(lists, url, source_url, request_type);
    enabled && adblock_url_parses(url) && m.0 && !m.1
}

/// The texts of `lists`.
pub open spec fn list_texts(lists: Seq<&str>) -> Seq<Seq<char>> {
    lists.map_values(|l: &str| l@)
}

/// The blocking decision for the engine's findings `check` (`None` when the
/// request could not be built).
pub fn block_verdict(enabled: bool, check: Option<RuleMatch>) -> (r: bool)
    ensures
        r == blocks(enabled, check),
{
    if !enabled {
        return false;
    }
    match check {
        Some(m) => m.matched && !m.excepted,
        None => false,
    }
}

/// The number of rules in a filter list: its lines that are neither blank
/// nor comments starting with `!`.
pub open spec fn rules_in(list: Seq<char>) -> nat {
    count_rules(RuleSyntax::Loader, newline_pieces(list))
}

/// The number of rules in all the lists of `lists`.
pub open spec fn rules_in_all(lists: Seq<&str>) -> nat
    decreases lists.len(),
{
    if lists.len() == 0 {
        0
    } else {
        rules_in_all(lists.drop_last()) + rules_in(lists.last()@)
    }
}

/// The number of rules in `list`.
pub fn count_filter_rules(list: &str) -> (n: usize)
    ensures
        n == rules_in(list@),
{
    let chars = chars_of(list);
    count_rule_lines(RuleSyntax::Loader, &chars)
}

/// The ad-blocking engine.
#[derive(Clone)]
pub struct AdBlockEngine {
    engine: Arc<Engine>,
    enabled: bool,
}

impl AdBlockEngine {
    /// Whether blocking is on.
    pub closed spec fn blocking_on(&self) -> bool {
        self.enabled
    }

    /// The shared engine that holds the rules.
    pub closed spec fn shared(&self) -> Arc<Engine> {
        self.engine
    }

    /// The filter lists whose rules the engine holds.
    pub closed spec fn lists(&self) -> Seq<Seq<char>> {
        engine_lists(*self.engine)
    }

    /// A new engine with no rules, blocking on.
    pub fn new() -> (r: Self)
        ensures
            r.blocking_on(),
            r.lists() == Seq::<Seq<char>>::empty(),
    {
        AdBlockEngine { engine: Arc::new(empty_engine()), enabled: true }
    }

    /// Turns blocking on or off.
    pub fn set_enabled(&mut self, enabled: bool)
        ensures
            final(self).blocking_on() == enabled,
            final(self).lists() == old(self).lists(),
    {
        self.enabled = enabled;
    }

    /// Whether blocking is on.
    pub fn is_enabled(&self) -> (r: bool)
        ensures
            r == self.blocking_on(),
    {
        self.enabled
    }

    /// Replaces the rules with those of `filter_lists` and returns how many
    /// rules the lists hold.
    pub fn load_filters_from_strings(&mut self, filter_lists: &[&str]) -> (n: usize)
        requires
            rules_in_all(filter_lists@) <= usize::MAX,
        ensures
            n == rules_in_all(filter_lists@),
            final(self).lists() == list_texts(filter_lists@),
            final(self).blocking_on() == old(self).blocking_on(),
    {
        let mut set = empty_filter_set();
        let mut total: usize = 0;
        let mut i: usize = 0;
        while i < filter_lists.len()
            invariant
                i <= filter_lists@.len(),
                total == rules_in_all(filter_lists@.take(i as int)),
                filter_set_lists(set) == list_texts(filter_lists@.take(i as int)),
                rules_in_all(filter_lists@) <= usize::MAX,
            decreases filter_lists@.len() - i,
        {
            let list = filter_lists[i];
            let count = count_filter_rules(list);
            add_filter_list(&mut set, list);
            proof {
                assert(filter_lists@.take(i + 1).drop_last() =~= filter_lists@.take(i as int));
                lemma_rules_in_all_prefix(filter_lists@, i + 1);
                assert(list_texts(filter_lists@.take(i + 1)) =~= list_texts(
                    filter_lists@.take(i as int),
                ).push(list@));
            }
            total = total + count;
            i = i + 1;
        }
        assert(filter_lists@.take(i as int) =~= filter_lists@);
        self.engine = Arc::new(engine_from_filter_set(set));
        total
    }

    /// Whether a request for `url`, made by the page at `source_url`, for a
    /// resource of type `request_type`, is blocked.
    pub fn should_block(&self, url: &str, source_url: &str, request_type: &str) -> (r: bool)
        ensures
            r == blocked_by(self.blocking_on(), self.lists(), url@, source_url@, request_type@),
    {
        if !self.enabled {
            return false;
        }
        match make_request(url, source_url, request_type) {
            Some(request) => {
                let m = check_request(&self.engine, &request);
                m.matched && !m.excepted
            },
            None => false,
        }
    }

    /// Whether a request for `url` of type `"other"` with no source page is blocked.
    pub fn should_block_url(&self, url: &str) -> (r: bool)
        ensures
            r == blocked_by(self.blocking_on(), self.lists(), url@, ""@, "other"@),
    {
        self.should_block(url, "", "other")
    }

    /// Another pointer to the engine, to share it between threads.
    pub fn clone_engine(&self) -> (r: Arc<Engine>)
        ensures
            r == self.shared(),
    {
        share_engine(&self.engine)
    }
}

proof fn lemma_rules_in_all_prefix(lists: Seq<&str>, n: int)
    requires
        0 < n <= lists.len(),
    ensures
        rules_in_all(lists.take(n)) <= rules_in_all(lists),
    decreases lists.len(),
{
    if n < lists.len() {
        assert(lists.drop_last().take(n) =~= lists.take(n));
        lemma_rules_in_all_prefix(lists.drop_last(), n);
    } else {
        assert(lists.take(n) =~= lists);
    }
}

impl Default for AdBlockEngine {
    fn default() -> (r: Self)
        ensures
            r.blocking_on(),
            r.lists() == Seq::<Seq<char>>::empty(),
    {
        Self::new()
    }
}

/// A single line is one rule when its trimmed text is not empty and it does
/// not start with `!` (so cosmetic rules starting with `#` count), and no
/// rule otherwise.
pub proof fn law_one_line_rule_count(line: Seq<char>)
    requires
        !line.contains('\n'),
    ensures
        rules_in(line) == if trim(line).len() > 0 && !(line.len() > 0 && line[0] == '!') {
            1nat
        } else {
            0nat
        },
{
    lemma_newline_pieces_single(line);
    lemma_count_rules_single(RuleSyntax::Loader, line);
}

/// Adding a line after a newline adds one to the rule count exactly when
/// its trimmed text is not empty and it does not start with `!`.
pub proof fn law_added_line_rule_count(list: Seq<char>, line: Seq<char>)
    requires
        !line.contains('\n'),
    ensures
        rules_in(list + seq!['\n'] + line) == rules_in(list) + if trim(line).len() > 0 && !(
        line.len() > 0 && line[0] == '!') {
            1nat
        } else {
            0nat
        },
{
    lemma_newline_pieces_join(list, line);
    lemma_count_rules_concat(RuleSyntax::Loader, newline_pieces(list), newline_pieces(line));
    law_one_line_rule_count(line);
}

/// The rules of several lists add up: loading `lists` reports the sum of
/// the rules of each.
pub proof fn law_rule_counts_add_up(lists: Seq<&str>, list: &str)
    ensures
        rules_in_all(lists.push(list)) == rules_in_all(lists) + rules_in(list@),
{
    assert(lists.push(list).drop_last() =~= lists);
}

} // verus!
