//! The shared configuration file: its model, the built-in defaults, which data
//! providers the visible sections need, validation, and where the file lives.

use vstd::prelude::*;

use crate::text::{all_ws, dec, is_whitespace, u64_to_string};

verus! {

/// The only configuration version that is accepted.
pub const CONFIG_VERSION: u64 = 2;

/// A world clock: a label and an IANA time zone identifier.
#[derive(Debug, Clone, PartialEq, Eq)]
pub struct Clock {
    pub label: String,
    pub timezone: String,
}

/// Which dashboard sections are enabled.
#[derive(Debug, Clone, Copy, PartialEq, Eq)]
pub struct SectionsConfig {
    pub clocks: bool,
    pub system: bool,
    pub ai: bool,
    pub amp_activity: bool,
    pub codex_activity: bool,
}

#[derive(Debug, Clone, Copy, PartialEq, Eq)]
pub struct ClocksDisplayConfig {
    pub heading: bool,
    pub clock_1: bool,
    pub clock_2: bool,
    pub clock_3: bool,
    pub clock_4: bool,
}

#[derive(Debug, Clone, Copy, PartialEq, Eq)]
pub struct SystemDisplayConfig {
    pub heading: bool,
    pub cpu: bool,
    pub ram: bool,
    pub gpu: bool,
    pub storage: bool,
    pub network: bool,
}

#[derive(Debug, Clone, Copy, PartialEq, Eq)]
pub struct AiDisplayConfig {
    pub heading: bool,
    pub amp_plan: bool,
    pub amp_orbs: bool,
    pub amp_credits: bool,
    pub codex_quota: bool,
    pub claude_quota: bool,
    pub antigravity_quota: bool,
    pub cursor_quota: bool,
    pub grok_quota: bool,
}

#[derive(Debug, Clone, Copy, PartialEq, Eq)]
pub struct AmpActivityDisplayConfig {
    pub heading: bool,
    pub calendar: bool,
    pub daily_activity: bool,
    pub usage_summary: bool,
    pub models: bool,
    pub sources: bool,
    pub sync_alerts: bool,
}

#[derive(Debug, Clone, Copy, PartialEq, Eq)]
pub struct CodexActivityDisplayConfig {
    pub heading: bool,
    pub calendar: bool,
    pub overview: bool,
    pub daily_activity: bool,
}

/// The headings, rows and charts shown inside each section.
#[derive(Debug, Clone, Copy, PartialEq, Eq)]
pub struct SectionDisplayConfig {
    pub clocks: ClocksDisplayConfig,
    pub system: SystemDisplayConfig,
    pub ai: AiDisplayConfig,
    pub amp_activity: AmpActivityDisplayConfig,
    pub codex_activity: CodexActivityDisplayConfig,
}

/// Refresh intervals, in seconds.
#[derive(Debug, Clone, Copy, PartialEq, Eq)]
pub struct RefreshConfig {
    pub codex_seconds: u64,
    pub amp_seconds: u64,
    pub claude_seconds: u64,
    pub quota_seconds: u64,
    pub storage_seconds: u64,
}

#[derive(Debug, Clone, Copy, PartialEq, Eq)]
pub struct DesktopConfig {
    pub font_size: u64,
    pub show_scrollbar: bool,
}

#[derive(Debug, Clone, PartialEq, Eq)]
pub struct Config {
    pub version: u64,
    pub clocks: Vec<Clock>,
    pub sections: SectionsConfig,
    pub section_display: SectionDisplayConfig,
    pub refresh: RefreshConfig,
    pub desktop: DesktopConfig,
}

impl SectionsConfig {
    /// The built-in value.
    pub open spec fn defaults() -> Self {
        SectionsConfig { clocks: true, system: true, ai: true, amp_activity: true, codex_activity: true }
    }
}

impl Default for SectionsConfig {
    fn default() -> (r: Self)
        ensures
            r == Self::defaults(),
    {
        SectionsConfig { clocks: true, system: true, ai: true, amp_activity: true, codex_activity: true }
    }
}

impl ClocksDisplayConfig {
    /// The built-in value.
    pub open spec fn defaults() -> Self {
        ClocksDisplayConfig { heading: true, clock_1: true, clock_2: true, clock_3: true, clock_4: true }
    }
}

impl Default for ClocksDisplayConfig {
    fn default() -> (r: Self)
        ensures
            r == Self::defaults(),
    {
        ClocksDisplayConfig { heading: true, clock_1: true, clock_2: true, clock_3: true, clock_4: true }
    }
}

impl SystemDisplayConfig {
    /// The built-in value.
    pub open spec fn defaults() -> Self {
        SystemDisplayConfig { heading: true, cpu: true, ram: true, gpu: true, storage: true, network: true }
    }
}

impl Default for SystemDisplayConfig {
    fn default() -> (r: Self)
        ensures
            r == Self::defaults(),
    {
        SystemDisplayConfig { heading: true, cpu: true, ram: true, gpu: true, storage: true, network: true }
    }
}

impl AiDisplayConfig {
    /// The built-in value.
    pub open spec fn defaults() -> Self {
        AiDisplayConfig {
            heading: true,
            amp_plan: true,
            amp_orbs: true,
            amp_credits: true,
            codex_quota: true,
            claude_quota: true,
            antigravity_quota: false,
            cursor_quota: false,
            grok_quota: false,
        }
    }
}

impl Default for AiDisplayConfig {
    fn default() -> (r: Self)
        ensures
            r == Self::defaults(),
    {
        AiDisplayConfig {
            heading: true,
            amp_plan: true,
            amp_orbs: true,
            amp_credits: true,
            codex_quota: true,
            claude_quota: true,
            antigravity_quota: false,
            cursor_quota: false,
            grok_quota: false,
        }
    }
}

impl AmpActivityDisplayConfig {
    /// The built-in value.
    pub open spec fn defaults() -> Self {
        AmpActivityDisplayConfig {
            heading: true,
            calendar: true,
            daily_activity: true,
            usage_summary: true,
            models: true,
            sources: true,
            sync_alerts: true,
        }
    }
}

impl Default for AmpActivityDisplayConfig {
    fn default() -> (r: Self)
        ensures
            r == Self::defaults(),
    {
        AmpActivityDisplayConfig {
            heading: true,
            calendar: true,
            daily_activity: true,
            usage_summary: true,
            models: true,
            sources: true,
            sync_alerts: true,
        }
    }
}

impl CodexActivityDisplayConfig {
    /// The built-in value.
    pub open spec fn defaults() -> Self {
        CodexActivityDisplayConfig { heading: true, calendar: true, overview: true, daily_activity: true }
    }
}

impl Default for CodexActivityDisplayConfig {
    fn default() -> (r: Self)
        ensures
            r == Self::defaults(),
    {
        CodexActivityDisplayConfig { heading: true, calendar: true, overview: true, daily_activity: true }
    }
}

impl SectionDisplayConfig {
    /// The built-in value.
    pub open spec fn defaults() -> Self {
        SectionDisplayConfig {
            clocks: ClocksDisplayConfig::defaults(),
            system: SystemDisplayConfig::defaults(),
            ai: AiDisplayConfig::defaults(),
            amp_activity: AmpActivityDisplayConfig::defaults(),
            codex_activity: CodexActivityDisplayConfig::defaults(),
        }
    }
}

impl Default for SectionDisplayConfig {
    fn default() -> (r: Self)
        ensures
            r == Self::defaults(),
    {
        SectionDisplayConfig {
            clocks: ClocksDisplayConfig::default(),
            system: SystemDisplayConfig::default(),
            ai: AiDisplayConfig::default(),
            amp_activity: AmpActivityDisplayConfig::default(),
            codex_activity: CodexActivityDisplayConfig::default(),
        }
    }
}

/// The interval of the `claude_seconds` setting where the configuration sets none.
pub fn default_claude_seconds() -> (r: u64)
    ensures
        r == 300,
{
    300
}

/// The quota refresh interval used where the configuration sets none.
pub fn default_quota_seconds() -> (r: u64)
    ensures
        r == 300,
{
    300
}

impl RefreshConfig {
    /// The built-in value.
    pub open spec fn defaults() -> Self {
        RefreshConfig {
            codex_seconds: 60,
            amp_seconds: 300,
            claude_seconds: 300,
            quota_seconds: 300,
            storage_seconds: 300,
        }
    }
}

impl Default for RefreshConfig {
    fn default() -> (r: Self)
        ensures
            r == Self::defaults(),
    {
        RefreshConfig {
            codex_seconds: 60,
            amp_seconds: 300,
            claude_seconds: default_claude_seconds(),
            quota_seconds: default_quota_seconds(),
            storage_seconds: 300,
        }
    }
}

impl DesktopConfig {
    /// The built-in value.
    pub open spec fn defaults() -> Self {
        DesktopConfig { font_size: 15, show_scrollbar: false }
    }
}

impl Default for DesktopConfig {
    fn default() -> (r: Self)
        ensures
            r == Self::defaults(),
    {
        DesktopConfig { font_size: 15, show_scrollbar: false }
    }
}

/// The four built-in clocks, in order.
pub open spec fn default_clock_pairs() -> Seq<(Seq<char>, Seq<char>)> {
    seq![
        ("Mumbai"@, "Asia/Kolkata"@),
        ("Paris"@, "Europe/Paris"@),
        ("Sydney"@, "Australia/Sydney"@),
        ("Seattle"@, "America/Los_Angeles"@),
    ]
}

fn clock(label: &str, timezone: &str) -> (c: Clock)
    ensures
        c.label@ == label@,
        c.timezone@ == timezone@,
{
    Clock { label: String::from_str(label), timezone: String::from_str(timezone) }
}

/// The built-in clocks: Mumbai, Paris, Sydney and Seattle.
pub fn default_clocks() -> (r: Vec<Clock>)
    ensures
        r@.len() == 4,
        forall|i: int|
            0 <= i < 4 ==> (#[trigger] r@[i]).label@ == default_clock_pairs()[i].0
                && r@[i].timezone@ == default_clock_pairs()[i].1,
{
    let mut r: Vec<Clock> = Vec::new();
    r.push(clock("Mumbai", "Asia/Kolkata"));
    r.push(clock("Paris", "Europe/Paris"));
    r.push(clock("Sydney", "Australia/Sydney"));
    r.push(clock("Seattle", "America/Los_Angeles"));
    r
}

impl Default for Config {
    fn default() -> (r: Self)
        ensures
            r.version == CONFIG_VERSION,
            r.clocks@.len() == 4,
            forall|i: int|
                0 <= i < 4 ==> (#[trigger] r.clocks@[i]).label@ == default_clock_pairs()[i].0
                    && r.clocks@[i].timezone@ == default_clock_pairs()[i].1,
            r.sections == SectionsConfig::defaults(),
            r.section_display == SectionDisplayConfig::defaults(),
            r.refresh == RefreshConfig::defaults(),
            r.desktop == DesktopConfig::defaults(),
    {
        Config {
            version: CONFIG_VERSION,
            clocks: default_clocks(),
            sections: SectionsConfig::default(),
            section_display: SectionDisplayConfig::default(),
            refresh: RefreshConfig::default(),
            desktop: DesktopConfig::default(),
        }
    }
}


impl ClocksDisplayConfig {
    /// Some option of the section is enabled.
    pub open spec fn spec_any(self) -> bool {
        self.heading || self.clock_1 || self.clock_2 || self.clock_3 || self.clock_4
    }

    pub fn any(&self) -> (r: bool)
        ensures
            r == self.spec_any(),
    {
        self.heading || self.clock_1 || self.clock_2 || self.clock_3 || self.clock_4
    }
}

impl SystemDisplayConfig {
    /// Some option of the section is enabled.
    pub open spec fn spec_any(self) -> bool {
        self.heading || self.cpu || self.ram || self.gpu || self.storage || self.network
    }

    pub fn any(&self) -> (r: bool)
        ensures
            r == self.spec_any(),
    {
        self.heading || self.cpu || self.ram || self.gpu || self.storage || self.network
    }
}

impl AiDisplayConfig {
    /// Some option of the section is enabled.
    pub open spec fn spec_any(self) -> bool {
        self.heading || self.amp_plan || self.amp_orbs || self.amp_credits || self.codex_quota
            || self.claude_quota || self.antigravity_quota || self.cursor_quota || self.grok_quota
    }

    pub fn any(&self) -> (r: bool)
        ensures
            r == self.spec_any(),
    {
        self.heading || self.amp_plan || self.amp_orbs || self.amp_credits || self.codex_quota
            || self.claude_quota || self.antigravity_quota || self.cursor_quota || self.grok_quota
    }
}

impl AmpActivityDisplayConfig {
    /// Some option of the section is enabled.
    pub open spec fn spec_any(self) -> bool {
        self.heading || self.calendar || self.daily_activity || self.usage_summary || self.models
            || self.sources || self.sync_alerts
    }

    pub fn any(&self) -> (r: bool)
        ensures
            r == self.spec_any(),
    {
        self.heading || self.calendar || self.daily_activity || self.usage_summary || self.models
            || self.sources || self.sync_alerts
    }
}

impl CodexActivityDisplayConfig {
    /// Some option of the section is enabled.
    pub open spec fn spec_any(self) -> bool {
        self.heading || self.calendar || self.overview || self.daily_activity
    }

    pub fn any(&self) -> (r: bool)
        ensures
            r == self.spec_any(),
    {
        self.heading || self.calendar || self.overview || self.daily_activity
    }
}

impl SectionDisplayConfig {
    /// System metrics are sampled only when an enabled System section shows a metric row.
    pub fn system_needed(&self, sections: &SectionsConfig) -> (r: bool)
        ensures
            r == (sections.system && (self.system.cpu || self.system.ram || self.system.gpu
                || self.system.storage || self.system.network)),
    {
        sections.system && (self.system.cpu || self.system.ram || self.system.gpu
            || self.system.storage || self.system.network)
    }

    /// Amp account usage is read only for a visible plan, Orb or credit row.
    pub fn amp_ai_needed(&self, sections: &SectionsConfig) -> (r: bool)
        ensures
            r == (sections.ai && (self.ai.amp_plan || self.ai.amp_orbs || self.ai.amp_credits)),
    {
        sections.ai && (self.ai.amp_plan || self.ai.amp_orbs || self.ai.amp_credits)
    }

    pub fn codex_ai_needed(&self, sections: &SectionsConfig) -> (r: bool)
        ensures
            r == (sections.ai && self.ai.codex_quota),
    {
        sections.ai && self.ai.codex_quota
    }

    pub fn claude_ai_needed(&self, sections: &SectionsConfig) -> (r: bool)
        ensures
            r == (sections.ai && self.ai.claude_quota),
    {
        sections.ai && self.ai.claude_quota
    }

    pub fn antigravity_ai_needed(&self, sections: &SectionsConfig) -> (r: bool)
        ensures
            r == (sections.ai && self.ai.antigravity_quota),
    {
        sections.ai && self.ai.antigravity_quota
    }

    pub fn cursor_ai_needed(&self, sections: &SectionsConfig) -> (r: bool)
        ensures
            r == (sections.ai && self.ai.cursor_quota),
    {
        sections.ai && self.ai.cursor_quota
    }

    pub fn grok_ai_needed(&self, sections: &SectionsConfig) -> (r: bool)
        ensures
            r == (sections.ai && self.ai.grok_quota),
    {
        sections.ai && self.ai.grok_quota
    }

    /// Amp activity history is fetched only for a visible calendar, table or alert.
    pub fn amp_activity_needed(&self, sections: &SectionsConfig) -> (r: bool)
        ensures
            r == (sections.amp_activity && (self.amp_activity.calendar
                || self.amp_activity.daily_activity || self.amp_activity.usage_summary
                || self.amp_activity.models || self.amp_activity.sources
                || self.amp_activity.sync_alerts)),
    {
        sections.amp_activity && (self.amp_activity.calendar || self.amp_activity.daily_activity
            || self.amp_activity.usage_summary || self.amp_activity.models
            || self.amp_activity.sources || self.amp_activity.sync_alerts)
    }

    pub fn codex_activity_needed(&self, sections: &SectionsConfig) -> (r: bool)
        ensures
            r == (sections.codex_activity && (self.codex_activity.calendar
                || self.codex_activity.overview || self.codex_activity.daily_activity)),
    {
        sections.codex_activity && (self.codex_activity.calendar || self.codex_activity.overview
            || self.codex_activity.daily_activity)
    }
}

/// Whether `chrono_tz` knows the time zone named `name`.
pub uninterp spec fn tz_known(name: Seq<char>) -> bool;

/// Calls `str::parse::<chrono_tz::Tz>` and says whether it succeeded; the contract
/// names the answer `tz_known` of the name, since it depends on the name alone.
#[verifier::external_body]
fn timezone_known(name: &str) -> (r: bool)
    ensures
        r == tz_known(name@),
{
    name.parse::<chrono_tz::Tz>().is_ok()
}

pub open spec fn msg_clock_count() -> Seq<char> {
    "clocks must contain exactly 4 entries"@
}

pub open spec fn msg_empty_label() -> Seq<char> {
    "clock labels cannot be empty"@
}

pub open spec fn msg_unknown_zone(zone: Seq<char>) -> Seq<char> {
    "unknown clock timezone: "@ + zone
}

/// The first problem among `clocks[i..]`, given which time zones are known.
pub open spec fn clock_problem_from(clocks: Seq<Clock>, known: Seq<bool>, i: int) -> Option<
    Seq<char>,
>
    decreases clocks.len() - i,
{
    if i < 0 || i >= clocks.len() {
        None
    } else if all_ws(clocks[i].label@) {
        Some(msg_empty_label())
    } else if !known[i] {
        Some(msg_unknown_zone(clocks[i].timezone@))
    } else {
        clock_problem_from(clocks, known, i + 1)
    }
}

/// The message `validate_clocks` gives for `clocks`, when `known[i]` says whether the
/// time zone of clock `i` is known; `None` when the clocks are valid.
pub open spec fn clock_problem(clocks: Seq<Clock>, known: Seq<bool>) -> Option<Seq<char>> {
    if clocks.len() != 4 {
        Some(msg_clock_count())
    } else {
        clock_problem_from(clocks, known, 0)
    }
}

/// The time zone of each clock is known to `chrono_tz`.
pub open spec fn zones_known(clocks: Seq<Clock>) -> Seq<bool> {
    Seq::new(clocks.len(), |i: int| tz_known(clocks[i].timezone@))
}

fn all_whitespace(s: &str) -> (r: bool)
    ensures
        r == all_ws(s@),
{
    let v = crate::text::chars_of(s);
    let mut i: usize = 0;
    while i < v.len()
        invariant
            i <= v.len(),
            v@ == s@,
            forall|j: int| 0 <= j < i ==> #[trigger] crate::text::is_ws(v@[j]),
        decreases v.len() - i,
    {
        if !is_whitespace(v[i]) {
            return false;
        }
        i = i + 1;
    }
    true
}

fn err_text(text: &str) -> (r: Result<(), String>)
    ensures
        r matches Err(e) && e@ == text@,
{
    Err(String::from_str(text))
}

/// Checks the clocks, given whether each clock's time zone is known: there are
/// exactly four, no label is blank, and every time zone is known. The first problem,
/// clock by clock and label before zone, is reported.
pub fn check_clocks(clocks: &[Clock], known: &[bool]) -> (r: Result<(), String>)
    requires
        known@.len() == clocks@.len(),
    ensures
        r is Ok <==> clock_problem(clocks@, known@) is None,
        r matches Err(e) ==> clock_problem(clocks@, known@) == Some(e@),
{
    if clocks.len() != 4 {
        return err_text("clocks must contain exactly 4 entries");
    }
    let mut i: usize = 0;
    while i < clocks.len()
        invariant
            i <= clocks.len(),
            clocks@.len() == 4,
            known@.len() == clocks@.len(),
            clock_problem(clocks@, known@) == clock_problem_from(clocks@, known@, i as int),
        decreases clocks.len() - i,
    {
        if all_whitespace(clocks[i].label.as_str()) {
            return err_text("clock labels cannot be empty");
        }
        if !known[i] {
            let mut e = String::from_str("unknown clock timezone: ");
            e.append(clocks[i].timezone.as_str());
            return Err(e);
        }
        i = i + 1;
    }
    Ok(())
}

/// `config::validate_clocks`: the clock rules, with each time zone looked up in `chrono_tz`.
pub fn validate_clocks(clocks: &[Clock]) -> (r: Result<(), String>)
    ensures
        r is Ok <==> clock_problem(clocks@, zones_known(clocks@)) is None,
        r matches Err(e) ==> clock_problem(clocks@, zones_known(clocks@)) == Some(e@),
{
    let mut known: Vec<bool> = Vec::new();
    let mut i: usize = 0;
    while i < clocks.len()
        invariant
            i <= clocks.len(),
            known@ =~= zones_known(clocks@).take(i as int),
        decreases clocks.len() - i,
    {
        known.push(timezone_known(clocks[i].timezone.as_str()));
        i = i + 1;
    }
    proof {
        assert(known@ =~= zones_known(clocks@));
    }
    check_clocks(clocks, known.as_slice())
}

pub open spec fn msg_version(version: u64) -> Seq<char> {
    "unsupported version "@ + dec(version as nat) + "; expected 2"@
}

pub open spec fn msg_section(name: Seq<char>) -> Seq<char> {
    "sections."@ + name + " requires at least one section_display."@ + name + " option"@
}

/// The first enabled section that shows nothing, by name.
pub open spec fn empty_section(c: Config) -> Option<Seq<char>> {
    if c.sections.clocks && !c.section_display.clocks.spec_any() {
        Some("clocks"@)
    } else if c.sections.system && !c.section_display.system.spec_any() {
        Some("system"@)
    } else if c.sections.ai && !c.section_display.ai.spec_any() {
        Some("ai"@)
    } else if c.sections.amp_activity && !c.section_display.amp_activity.spec_any() {
        Some("amp_activity"@)
    } else if c.sections.codex_activity && !c.section_display.codex_activity.spec_any() {
        Some("codex_activity"@)
    } else {
        None
    }
}

/// The message that validation gives for `c`, when `known` says which clock time
/// zones are known; `None` when `c` is valid. The rules are checked in this order:
/// the version, the clocks, every enabled section shows something, the refresh
/// intervals (Codex at least 5 seconds, the others at least 60), and a font size from
/// 10 through 24.
pub open spec fn config_problem(c: Config, known: Seq<bool>) -> Option<Seq<char>> {
    if c.version != CONFIG_VERSION {
        Some(msg_version(c.version))
    } else if clock_problem(c.clocks@, known) is Some {
        clock_problem(c.clocks@, known)
    } else if empty_section(c) is Some {
        Some(msg_section(empty_section(c).unwrap()))
    } else if c.refresh.codex_seconds < 5 {
        Some("refresh.codex_seconds must be at least 5"@)
    } else if c.refresh.amp_seconds < 60 {
        Some("refresh.amp_seconds must be at least 60"@)
    } else if c.refresh.claude_seconds < 60 {
        Some("refresh.claude_seconds must be at least 60"@)
    } else if c.refresh.quota_seconds < 60 {
        Some("refresh.quota_seconds must be at least 60"@)
    } else if c.refresh.storage_seconds < 60 {
        Some("refresh.storage_seconds must be at least 60"@)
    } else if !(10 <= c.desktop.font_size && c.desktop.font_size <= 24) {
        Some("desktop.font_size must be between 10 and 24"@)
    } else {
        None
    }
}

proof fn lemma_clock_problem_from(clocks: Seq<Clock>, known: Seq<bool>, i: int)
    requires
        0 <= i <= clocks.len(),
        known.len() == clocks.len(),
    ensures
        clock_problem_from(clocks, known, i) is None <==> forall|j: int|
            i <= j < clocks.len() ==> !all_ws(#[trigger] clocks[j].label@) && known[j],
    decreases clocks.len() - i,
{
    if i < clocks.len() {
        lemma_clock_problem_from(clocks, known, i + 1);
        let l0 = clocks[i].label@;
        if clock_problem_from(clocks, known, i) is None {
            assert(!all_ws(l0) && known[i]);
            assert(clock_problem_from(clocks, known, i + 1) is None);
            assert forall|j: int| i <= j < clocks.len() implies !all_ws(#[trigger] clocks[j].label@) && known[j] by {
                if j > i {
                    assert(i + 1 <= j);
                }
            }
        }
        if forall|j: int| i <= j < clocks.len() ==> !all_ws(#[trigger] clocks[j].label@) && known[j] {
            assert(!all_ws(clocks[i].label@) && known[i]);
            assert forall|j: int| i + 1 <= j < clocks.len() implies !all_ws(#[trigger] clocks[j].label@) && known[j] by {}
        }
    }
}

/// A configuration is accepted exactly when it has version 2; four clocks, each
/// with a label that is not blank and a time zone `chrono_tz` knows; every enabled
/// section with at least one display option on (its heading counts); a Codex
/// refresh of at least 5 seconds and the other refreshes of at least 60; and a font
/// size from 10 through 24.
pub proof fn law_validate_accepts_exactly_the_documented_configs(c: Config)
    ensures
        config_problem(c, zones_known(c.clocks@)) is None <==> {
            &&& c.version == 2
            &&& c.clocks@.len() == 4
            &&& forall|j: int|
                0 <= j < 4 ==> !all_ws((#[trigger] c.clocks@[j]).label@) && tz_known(c.clocks@[j].timezone@)
            &&& c.sections.clocks ==> c.section_display.clocks.spec_any()
            &&& c.sections.system ==> c.section_display.system.spec_any()
            &&& c.sections.ai ==> c.section_display.ai.spec_any()
            &&& c.sections.amp_activity ==> c.section_display.amp_activity.spec_any()
            &&& c.sections.codex_activity ==> c.section_display.codex_activity.spec_any()
            &&& c.refresh.codex_seconds >= 5
            &&& c.refresh.amp_seconds >= 60
            &&& c.refresh.claude_seconds >= 60
            &&& c.refresh.quota_seconds >= 60
            &&& c.refresh.storage_seconds >= 60
            &&& 10 <= c.desktop.font_size <= 24
        },
{
    let known = zones_known(c.clocks@);
    lemma_clock_problem_from(c.clocks@, known, 0);
    if c.clocks@.len() == 4 {
        assert forall|j: int| 0 <= j < 4 implies known[j] == tz_known((#[trigger] c.clocks@[j]).timezone@) by {}
    }
}

fn section_error(name: &str) -> (r: Result<(), String>)
    ensures
        r matches Err(e) && e@ == msg_section(name@),
{
    let mut e = String::from_str("sections.");
    e.append(name);
    e.append(" requires at least one section_display.");
    e.append(name);
    e.append(" option");
    Err(e)
}

/// Validates `config` given whether each clock's time zone is known (see
/// `config_problem` for the rules and their order).
pub fn check_config(config: &Config, known: &[bool]) -> (r: Result<(), String>)
    requires
        known@.len() == config.clocks@.len(),
    ensures
        r is Ok <==> config_problem(*config, known@) is None,
        r matches Err(e) ==> config_problem(*config, known@) == Some(e@),
{
    if config.version != CONFIG_VERSION {
        let mut e = String::from_str("unsupported version ");
        let v = u64_to_string(config.version);
        e.append(v.as_str());
        e.append("; expected 2");
        return Err(e);
    }
    let clocks = check_clocks(config.clocks.as_slice(), known);
    if clocks.is_err() {
        return clocks;
    }
    if config.sections.clocks && !config.section_display.clocks.any() {
        return section_error("clocks");
    }
    if config.sections.system && !config.section_display.system.any() {
        return section_error("system");
    }
    if config.sections.ai && !config.section_display.ai.any() {
        return section_error("ai");
    }
    if config.sections.amp_activity && !config.section_display.amp_activity.any() {
        return section_error("amp_activity");
    }
    if config.sections.codex_activity && !config.section_display.codex_activity.any() {
        return section_error("codex_activity");
    }
    if config.refresh.codex_seconds < 5 {
        return err_text("refresh.codex_seconds must be at least 5");
    }
    if config.refresh.amp_seconds < 60 {
        return err_text("refresh.amp_seconds must be at least 60");
    }
    if config.refresh.claude_seconds < 60 {
        return err_text("refresh.claude_seconds must be at least 60");
    }
    if config.refresh.quota_seconds < 60 {
        return err_text("refresh.quota_seconds must be at least 60");
    }
    if config.refresh.storage_seconds < 60 {
        return err_text("refresh.storage_seconds must be at least 60");
    }
    if !(10 <= config.desktop.font_size && config.desktop.font_size <= 24) {
        return err_text("desktop.font_size must be between 10 and 24");
    }
    Ok(())
}

/// `config::validate`: the configuration rules, with each clock's time zone looked
/// up in `chrono_tz`.
pub fn validate(config: &Config) -> (r: Result<(), String>)
    ensures
        r is Ok <==> config_problem(*config, zones_known(config.clocks@)) is None,
        r matches Err(e) ==> config_problem(*config, zones_known(config.clocks@)) == Some(e@),
{
    let mut known: Vec<bool> = Vec::new();
    let mut i: usize = 0;
    while i < config.clocks.len()
        invariant
            i <= config.clocks.len(),
            known@ =~= zones_known(config.clocks@).take(i as int),
        decreases config.clocks.len() - i,
    {
        known.push(timezone_known(config.clocks[i].timezone.as_str()));
        i = i + 1;
    }
    proof {
        assert(known@ =~= zones_known(config.clocks@));
    }
    check_config(config, known.as_slice())
}


/// `Path::join` on Unix for a relative `rel`: a `/` is put between the two unless
/// `base` is empty or already ends with one.
pub open spec fn join_path(base: Seq<char>, rel: Seq<char>) -> Seq<char> {
    if base.len() == 0 {
        rel
    } else if base.last() == '/' {
        base + rel
    } else {
        base + seq!['/'] + rel
    }
}

pub fn join(base: &str, rel: &str) -> (r: String)
    ensures
        r@ == join_path(base@, rel@),
{
    let b = crate::text::chars_of(base);
    let mut r = String::from_str(base);
    if b.len() > 0 && b[b.len() - 1] != '/' {
        crate::text::push_char(&mut r, '/');
    }
    r.append(rel);
    r
}

pub open spec fn msg_no_home() -> Seq<char> {
    "could not determine the home directory for the Stats config"@
}

/// Where the configuration file is: under `XDG_CONFIG_HOME` when that is set to an
/// absolute path, else under `~/.config`.
pub open spec fn config_location(xdg_config_home: Option<Seq<char>>, home: Option<Seq<char>>) -> Result<
    Seq<char>,
    Seq<char>,
> {
    if xdg_config_home is Some && xdg_config_home.unwrap().len() > 0
        && xdg_config_home.unwrap()[0] == '/' {
        Ok(join_path(xdg_config_home.unwrap(), "stats/config.toml"@))
    } else if home is Some {
        Ok(join_path(home.unwrap(), ".config/stats/config.toml"@))
    } else {
        Err(msg_no_home())
    }
}

/// The configuration path for the given `XDG_CONFIG_HOME` value and home directory.
pub fn path_from(xdg_config_home: Option<&str>, home: Option<&str>) -> (r: Result<String, String>)
    ensures
        match config_location(
            match xdg_config_home {
                Some(x) => Some(x@),
                None => None,
            },
            match home {
                Some(h) => Some(h@),
                None => None,
            },
        ) {
            Ok(p) => r matches Ok(q) && q@ == p,
            Err(m) => r matches Err(e) && e@ == m,
        },
{
    if let Some(x) = xdg_config_home {
        let v = crate::text::chars_of(x);
        if v.len() > 0 && v[0] == '/' {
            return Ok(join(x, "stats/config.toml"));
        }
    }
    match home {
        Some(h) => Ok(join(h, ".config/stats/config.toml")),
        None => Err(String::from_str("could not determine the home directory for the Stats config")),
    }
}

} // verus!
