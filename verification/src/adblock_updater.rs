//! Decisions of the filter-list update service: when to update, which lists
//! to download to which files, whether a download is acceptable, and the
//! report of an update.

use vstd::prelude::*;
use crate::adblock_config::{enabled_urls, AdBlockConfig};
use crate::text::{
    chars_of, count_rule_lines, count_rules, decimal, lemma_count_rules_concat,
    lemma_count_rules_single, lemma_newline_pieces_join, lemma_newline_pieces_single, newline_pieces,
    trim, push_decimal, push_str, string_from_chars, RuleSyntax,
};

verus! {

/// A span of time: whole seconds and the nanoseconds beyond them.
#[derive(Debug, Clone, Copy, PartialEq, Eq)]
pub struct TimeSpan {
    pub secs: u64,
    pub nanos: u32,
}

impl TimeSpan {
    /// The span in nanoseconds.
    pub open spec fn total_nanos(self) -> int {
        self.secs * 1_000_000_000 + self.nanos
    }

    /// The nanoseconds part is below one second.
    pub open spec fn valid(self) -> bool {
        self.nanos < 1_000_000_000
    }

    /// The whole seconds of the span.
    pub fn as_secs(&self) -> (r: u64)
        ensures
            r == self.secs,
    {
        self.secs
    }
}

/// The time elapsed from `earlier` to `later`, none when `later` comes first.
pub open spec fn span_from(earlier: TimeSpan, later: TimeSpan) -> Option<int> {
    if later.total_nanos() >= earlier.total_nanos() {
        Some(later.total_nanos() - earlier.total_nanos())
    } else {
        None
    }
}

/// The span from `earlier` to `later`, none when `later` comes first.
pub fn span_between(later: TimeSpan, earlier: TimeSpan) -> (r: Option<TimeSpan>)
    requires
        later.valid(),
        earlier.valid(),
    ensures
        r is Some <==> span_from(earlier, later) is Some,
        r matches Some(d) ==> d.valid() && Some(d.total_nanos()) == span_from(earlier, later),
{
    if later.secs > earlier.secs || (later.secs == earlier.secs && later.nanos >= earlier.nanos) {
        if later.nanos >= earlier.nanos {
            Some(TimeSpan { secs: later.secs - earlier.secs, nanos: later.nanos - earlier.nanos })
        } else {
            Some(
                TimeSpan {
                    secs: later.secs - earlier.secs - 1,
                    nanos: 1_000_000_000 - earlier.nanos + later.nanos,
                },
            )
        }
    } else {
        None
    }
}

/// The current time as the span since the Unix epoch, from
/// `std::time::SystemTime::now`; none when the clock reads a time before the
/// epoch. What the clock reads is not stated.
#[verifier::external_body]
fn clock_since_epoch() -> (r: Option<TimeSpan>)
    ensures
        r matches Some(t) ==> t.valid(),
{
    match std::time::SystemTime::now().duration_since(std::time::UNIX_EPOCH) {
        Ok(d) => Some(TimeSpan { secs: d.as_secs(), nanos: d.subsec_nanos() }),
        Err(_) => None,
    }
}

/// The outcome of a filter-list update.
#[derive(Debug)]
pub struct UpdateReport {
    pub success_count: usize,
    pub failed_count: usize,
    pub skipped: bool,
    pub errors: Vec<String>,
}

impl UpdateReport {
    /// The report of an update that was not needed.
    pub fn skipped_update() -> (r: Self)
        ensures
            r.success_count == 0,
            r.failed_count == 0,
            r.skipped,
            r.errors@.len() == 0,
    {
        UpdateReport { success_count: 0, failed_count: 0, skipped: true, errors: Vec::new() }
    }

    /// Whether the update ran and no download failed.
    pub fn is_success(&self) -> (r: bool)
        ensures
            r == (self.failed_count == 0 && !self.skipped),
    {
        self.failed_count == 0 && !self.skipped
    }

    /// Records the outcome of one download: a success, or a failure with its message.
    pub fn record_outcome(&mut self, failure: Option<String>)
        requires
            old(self).success_count < usize::MAX,
            old(self).failed_count < usize::MAX,
        ensures
            final(self).skipped == old(self).skipped,
            failure is None ==> final(self).success_count == old(self).success_count + 1
                && final(self).failed_count == old(self).failed_count && final(self).errors@
                == old(self).errors@,
            failure matches Some(m) ==> final(self).success_count == old(self).success_count
                && final(self).failed_count == old(self).failed_count + 1 && final(self).errors@
                == old(self).errors@.push(m),
    {
        match failure {
            None => {
                self.success_count = self.success_count + 1;
            },
            Some(message) => {
                self.failed_count = self.failed_count + 1;
                self.errors.push(message);
            },
        }
    }
}

impl Default for UpdateReport {
    fn default() -> (r: Self)
        ensures
            r.success_count == 0,
            r.failed_count == 0,
            !r.skipped,
            r.errors@.len() == 0,
    {
        UpdateReport { success_count: 0, failed_count: 0, skipped: false, errors: Vec::new() }
    }
}

/// Why a filter-list download failed.
#[derive(Debug)]
pub enum UpdateError {
    NetworkError(String),
    HttpError(u16),
    IoError(String),
    InvalidFilterList,
}

/// The text an update error shows.
pub open spec fn update_error_text(e: UpdateError) -> Seq<char> {
    match e {
        UpdateError::NetworkError(m) => "Erreur réseau: "@ + m@,
        UpdateError::HttpError(code) => "Erreur HTTP "@ + decimal(code as nat),
        UpdateError::IoError(m) => "Erreur I/O: "@ + m@,
        UpdateError::InvalidFilterList => "Liste de filtres invalide"@,
    }
}

impl UpdateError {
    /// The text the error shows.
    pub fn message(&self) -> (r: String)
        ensures
            r@ == update_error_text(*self),
    {
        let mut out: Vec<char> = Vec::new();
        match self {
            UpdateError::NetworkError(m) => {
                push_str(&mut out, "Erreur réseau: ");
                push_str(&mut out, m.as_str());
            },
            UpdateError::HttpError(code) => {
                push_str(&mut out, "Erreur HTTP ");
                push_decimal(&mut out, *code as u64);
            },
            UpdateError::IoError(m) => {
                push_str(&mut out, "Erreur I/O: ");
                push_str(&mut out, m.as_str());
            },
            UpdateError::InvalidFilterList => {
                push_str(&mut out, "Liste de filtres invalide");
            },
        }
        string_from_chars(&out)
    }
}

/// A filter list to download and the file to store it in.
#[derive(Debug)]
pub struct DownloadJob {
    pub url: String,
    pub path: String,
}

/// The file for the `i`-th enabled list: the `i`-th local list path when
/// there is one, else `resources/adblock/custom_<i>.txt`.
pub open spec fn job_path(paths: Seq<Seq<char>>, i: int) -> Seq<char> {
    if i < paths.len() {
        paths[i]
    } else {
        "resources/adblock/custom_"@ + decimal(i as nat) + ".txt"@
    }
}

/// Whether `jobs` are the downloads of an update under `config`: one per
/// enabled filter-list URL, in order, the `i`-th stored at
/// `job_path(local paths, i)`.
pub open spec fn plans_config(jobs: Seq<DownloadJob>, config: AdBlockConfig) -> bool {
    let urls = enabled_urls(config.filters());
    &&& jobs.len() == urls.len()
    &&& forall|i: int|
        0 <= i < jobs.len() ==> (#[trigger] jobs[i]).url@ == urls[i] && jobs[i].path@ == job_path(
            config.list_paths(),
            i,
        )
}

/// A filter list is acceptable when it is not empty and has at least ten
/// rules: trimmed lines that are neither empty nor start with `!` or `#`.
pub open spec fn valid_filter_list(content: Seq<char>) -> bool {
    content.len() > 0 && count_rules(RuleSyntax::Validator, newline_pieces(content)) >= 10
}

/// An update is due when automatic updates are on and either the time since
/// the last update is unknown or it exceeds the update interval.
pub open spec fn update_due(auto_update: bool, interval_hours: u64, elapsed: Option<TimeSpan>) -> bool {
    auto_update && match elapsed {
        Some(d) => d.total_nanos() > interval_hours * 3600 * 1_000_000_000,
        None => true,
    }
}

/// The filter-list update service.
pub struct FilterUpdater {
    config: AdBlockConfig,
    last_update: TimeSpan,
}

impl FilterUpdater {
    #[verifier::type_invariant]
    spec fn well_formed(self) -> bool {
        self.last_update.valid()
    }

    /// The configuration the service works with.
    pub closed spec fn config(&self) -> AdBlockConfig {
        self.config
    }

    /// When the last update happened, as the span since the Unix epoch.
    pub closed spec fn last_update(&self) -> TimeSpan {
        self.last_update
    }

    /// The time from the last update to `now`, none when `now` is unknown or earlier.
    pub open spec fn elapsed_at(&self, now: Option<TimeSpan>) -> Option<TimeSpan> {
        match now {
            Some(t) => match span_from(self.last_update(), t) {
                Some(n) => Some(TimeSpan { secs: (n / 1_000_000_000) as u64, nanos: (n % 1_000_000_000) as u32 }),
                None => None,
            },
            None => None,
        }
    }

    /// The configuration the service works with.
    pub fn settings(&self) -> (r: &AdBlockConfig)
        ensures
            *r == self.config(),
    {
        &self.config
    }

    /// A service that has never updated (its last update is the Unix epoch).
    pub fn new(config: AdBlockConfig) -> (r: Self)
        ensures
            r.config() == config,
            r.last_update() == (TimeSpan { secs: 0, nanos: 0 }),
    {
        FilterUpdater { config, last_update: TimeSpan { secs: 0, nanos: 0 } }
    }

    /// The time from the last update to `now`.
    fn elapsed(&self, now: Option<TimeSpan>) -> (r: Option<TimeSpan>)
        requires
            now matches Some(t) ==> t.valid(),
        ensures
            r == self.elapsed_at(now),
            r matches Some(d) ==> d.valid(),
    {
        proof {
            use_type_invariant(self);
        }
        match now {
            Some(t) => {
                let d = span_between(t, self.last_update);
                proof {
                    if let Some(x) = d {
                        let n = x.total_nanos();
                        assert(n / 1_000_000_000 == x.secs && n % 1_000_000_000 == x.nanos) by (
                        nonlinear_arith)
                            requires
                                n == x.secs * 1_000_000_000 + x.nanos,
                                x.nanos < 1_000_000_000,
                        ;
                    }
                }
                d
            },
            None => None,
        }
    }

    /// Whether an update is due at time `now` (none when the clock is before the epoch).
    pub fn should_update_at(&self, now: Option<TimeSpan>) -> (r: bool)
        requires
            now matches Some(t) ==> t.valid(),
            self.config().auto_update ==> self.config().update_interval_hours * 3600 <= u64::MAX,
        ensures
            r == update_due(
                self.config().auto_update,
                self.config().update_interval_hours,
                self.elapsed_at(now),
            ),
    {
        if !self.config.auto_update {
            return false;
        }
        let interval_secs = self.config.update_interval_hours * 60 * 60;
        match self.elapsed(now) {
            Some(d) => {
                let r = d.secs > interval_secs || (d.secs == interval_secs && d.nanos > 0);
                proof {
                    assert(r == (d.total_nanos() > self.config().update_interval_hours * 3600
                        * 1_000_000_000)) by (nonlinear_arith)
                        requires
                            interval_secs == self.config().update_interval_hours * 3600,
                            d.nanos < 1_000_000_000,
                            r == (d.secs > interval_secs || (d.secs == interval_secs && d.nanos
                                > 0)),
                    ;
                }
                r
            },
            None => true,
        }
    }

    /// Whether the filters should be updated now.
    pub fn should_update(&self) -> (r: bool)
        requires
            self.config().auto_update ==> self.config().update_interval_hours * 3600 <= u64::MAX,
        ensures
            exists|now: Option<TimeSpan>|
                r == update_due(
                    self.config().auto_update,
                    self.config().update_interval_hours,
                    #[trigger] self.elapsed_at(now),
                ),
            !self.config().auto_update ==> !r,
    {
        let now = clock_since_epoch();
        self.should_update_at(now)
    }

    /// The time since the last update, none when the clock reads an earlier time.
    pub fn time_since_last_update(&self) -> (r: Option<TimeSpan>)
        requires
        ensures
            exists|now: Option<TimeSpan>| r == #[trigger] self.elapsed_at(now),
            r matches Some(d) ==> d.valid(),
    {
        let now = clock_since_epoch();
        self.elapsed(now)
    }

    /// The downloads an update at time `now` makes: none when no update is
    /// due, else those of `forced_plan`.
    pub fn update_plan(&self, now: Option<TimeSpan>) -> (r: Option<Vec<DownloadJob>>)
        requires
            now matches Some(t) ==> t.valid(),
            self.config().auto_update ==> self.config().update_interval_hours * 3600 <= u64::MAX,
        ensures
            r is None <==> !update_due(
                self.config().auto_update,
                self.config().update_interval_hours,
                self.elapsed_at(now),
            ),
            r matches Some(jobs) ==> plans_config(jobs@, self.config()),
    {
        if !self.should_update_at(now) {
            return None;
        }
        Some(self.forced_plan())
    }

    /// The downloads a forced update makes, whatever the time and whether
    /// automatic updates are on: one per enabled filter-list URL, in order,
    /// the `i`-th stored at `job_path(local paths, i)`.
    pub fn forced_plan(&self) -> (jobs: Vec<DownloadJob>)
        ensures
            plans_config(jobs@, self.config()),
    {
        let urls = self.config.get_enabled_filter_urls();
        let ghost uv = crate::adblock_config::strings_view(urls@);
        let mut jobs: Vec<DownloadJob> = Vec::new();
        let mut i: usize = 0;
        while i < urls.len()
            invariant
                i <= urls@.len(),
                uv == crate::adblock_config::strings_view(urls@),
                uv == enabled_urls(self.config().filters()),
                jobs@.len() == i,
                forall|j: int|
                    0 <= j < i ==> (#[trigger] jobs@[j]).url@ == uv[j] && jobs@[j].path@
                        == job_path(self.config().list_paths(), j),
            decreases urls@.len() - i,
        {
            let path = if i < self.config.filter_lists.len() {
                self.config.filter_lists[i].clone()
            } else {
                let mut name: Vec<char> = Vec::new();
                push_str(&mut name, "resources/adblock/custom_");
                push_decimal(&mut name, i as u64);
                push_str(&mut name, ".txt");
                string_from_chars(&name)
            };
            assert(uv[i as int] == urls@[i as int]@);
            jobs.push(DownloadJob { url: urls[i].clone(), path });
            i = i + 1;
        }
        jobs
    }

    /// Whether a download answered with HTTP status `status` and body
    /// `content` may be stored: the status must be a success (200 to 299)
    /// and the body a valid filter list.
    pub fn check_download(&self, status: u16, content: &str) -> (r: Result<(), UpdateError>)
        ensures
            !(200 <= status <= 299) ==> (r matches Err(UpdateError::HttpError(s)) && s == status),
            200 <= status <= 299 && !valid_filter_list(content@) ==> r matches Err(
                UpdateError::InvalidFilterList,
            ),
            200 <= status <= 299 && valid_filter_list(content@) ==> r is Ok,
    {
        match self.check_status(status) {
            Ok(()) => {},
            Err(e) => {
                return Err(e);
            },
        }
        if !self.is_valid_filter_list(content) {
            return Err(UpdateError::InvalidFilterList);
        }
        Ok(())
    }

    /// Whether a download answered with HTTP status `status` may go on:
    /// the status must be a success (200 to 299).
    pub fn check_status(&self, status: u16) -> (r: Result<(), UpdateError>)
        ensures
            !(200 <= status <= 299) ==> (r matches Err(UpdateError::HttpError(s)) && s == status),
            200 <= status <= 299 ==> r is Ok,
    {
        if 200 <= status && status <= 299 {
            Ok(())
        } else {
            Err(UpdateError::HttpError(status))
        }
    }

    /// Whether `content` is a valid filter list.
    pub fn is_valid_filter_list(&self, content: &str) -> (r: bool)
        ensures
            r == valid_filter_list(content@),
    {
        let chars = chars_of(content);
        if chars.len() == 0 {
            return false;
        }
        count_rule_lines(RuleSyntax::Validator, &chars) >= 10
    }

    /// Records that an update finished at `now`.
    pub fn finish_update(&mut self, now: TimeSpan)
        requires
            now.valid(),
        ensures
            final(self).last_update() == now,
            final(self).config() == old(self).config(),
    {
        self.last_update = now;
    }

    /// Forgets the last update, so that the next one is due (when automatic
    /// updates are on).
    pub fn mark_stale(&mut self)
        ensures
            final(self).last_update() == (TimeSpan { secs: 0, nanos: 0 }),
            final(self).config() == old(self).config(),
    {
        self.last_update = TimeSpan { secs: 0, nanos: 0 };
    }
}

/// Right after an update finished at `now`, no update is due at `now`.
pub proof fn law_update_not_due_right_after(updater: FilterUpdater, now: TimeSpan)
    requires
        updater.last_update() == now,
        now.valid(),
    ensures
        updater.elapsed_at(Some(now)) == Some(TimeSpan { secs: 0, nanos: 0 }),
        !update_due(
            updater.config().auto_update,
            updater.config().update_interval_hours,
            updater.elapsed_at(Some(now)),
        ),
{
}

/// A valid filter list stays valid when more lines are added after it.
pub proof fn law_valid_list_stays_valid_with_more_lines(content: Seq<char>, more: Seq<char>)
    requires
        valid_filter_list(content),
    ensures
        valid_filter_list(content + seq!['\n'] + more),
{
    lemma_newline_pieces_join(content, more);
    lemma_count_rules_concat(RuleSyntax::Validator, newline_pieces(content), newline_pieces(more));
}

/// A downloaded list needs at least ten rule lines: with nine or fewer it is
/// rejected, with ten or more (and some text) it is accepted.
pub proof fn law_ten_rule_lines_needed(content: Seq<char>)
    ensures
        count_rules(RuleSyntax::Validator, newline_pieces(content)) <= 9 ==> !valid_filter_list(
            content,
        ),
        count_rules(RuleSyntax::Validator, newline_pieces(content)) >= 10 ==> valid_filter_list(
            content,
        ),
{
    if count_rules(RuleSyntax::Validator, newline_pieces(content)) >= 10 && content.len() == 0 {
        assert(newline_pieces(content) =~= seq![Seq::<char>::empty()]);
        lemma_count_rules_single(RuleSyntax::Validator, Seq::<char>::empty());
    }
}

/// A list that is valid loses its validity when it is cut back to a list of
/// nine rule lines, and a list of nine rule lines becomes valid when one more
/// rule line is added after a newline.
pub proof fn law_tenth_rule_line_makes_valid(content: Seq<char>, line: Seq<char>)
    requires
        count_rules(RuleSyntax::Validator, newline_pieces(content)) == 9,
        !line.contains('\n'),
        trim(line).len() > 0,
        trim(line)[0] != '!',
        trim(line)[0] != '#',
    ensures
        !valid_filter_list(content),
        valid_filter_list(content + seq!['\n'] + line),
{
    law_ten_rule_lines_needed(content);
    lemma_newline_pieces_join(content, line);
    lemma_newline_pieces_single(line);
    lemma_count_rules_concat(RuleSyntax::Validator, newline_pieces(content), newline_pieces(line));
    lemma_count_rules_single(RuleSyntax::Validator, line);
}

/// For every interval `hours`, an update is not due when exactly `hours`
/// hours have passed, and is due one nanosecond later; it is never due with
/// automatic updates off, and always due when the time since the last
/// update is unknown.
pub proof fn law_update_due_after_interval(hours: u64, auto_update: bool, elapsed: Option<TimeSpan>)
    requires
        hours * 3600 <= u64::MAX,
    ensures
        !update_due(true, hours, Some(TimeSpan { secs: (hours * 3600) as u64, nanos: 0 })),
        update_due(true, hours, Some(TimeSpan { secs: (hours * 3600) as u64, nanos: 1 })),
        !update_due(false, hours, elapsed),
        update_due(true, hours, None),
{
    assert((hours * 3600) * 1_000_000_000 + 0 == hours * 3600 * 1_000_000_000) by (nonlinear_arith);
    assert((hours * 3600) * 1_000_000_000 + 1 > hours * 3600 * 1_000_000_000) by (nonlinear_arith);
}

/// Whether an update is due only grows with the time elapsed: a longer wait
/// than one at which an update is due also has one due, and a shorter wait
/// than one at which none is due has none due.
pub proof fn law_update_due_monotone(hours: u64, a: TimeSpan, b: TimeSpan)
    requires
        a.total_nanos() <= b.total_nanos(),
    ensures
        update_due(true, hours, Some(a)) ==> update_due(true, hours, Some(b)),
        !update_due(true, hours, Some(b)) ==> !update_due(true, hours, Some(a)),
        a.total_nanos() <= hours * 3600 * 1_000_000_000 ==> !update_due(true, hours, Some(a)),
{
}

} // verus!
