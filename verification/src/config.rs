//! Dashboard configuration: the site name, the clock format and the sites to
//! watch.

use vstd::prelude::*;

verus! {

/// Name of the configuration file that is read when none is given.
pub const CONFIG_FILE: &'static str = "config.json5";

/// Seconds between two checks of a site when its entry names no interval.
pub const DEFAULT_MONITOR_INTERVAL_SECS: u64 = 5;

/// Shortest interval between two checks of a site that is accepted.
pub const MIN_MONITOR_INTERVAL_SECS: u64 = 1;

/// Format in which the dashboard shows the time.
#[derive(Debug, Clone, Copy, PartialEq, Eq, Structural)]
pub enum Clock {
    /// No clock is shown.
    NoClock,
    /// 24-hour format.
    Hour24,
    /// 12-hour format.
    Hour12,
}

/// The text that stands for a clock format in the settings form.
pub open spec fn clock_text(clock: Clock) -> Seq<char> {
    match clock {
        Clock::Hour24 => "24hour"@,
        Clock::Hour12 => "12hour"@,
        Clock::NoClock => "none"@,
    }
}

/// The clock format that a text of the settings form stands for.
pub open spec fn clock_from_text(text: Seq<char>) -> Option<Clock> {
    if text == "24hour"@ {
        Some(Clock::Hour24)
    } else if text == "12hour"@ {
        Some(Clock::Hour12)
    } else if text == "none"@ {
        Some(Clock::NoClock)
    } else {
        None
    }
}

impl Default for Clock {
    fn default() -> (clock: Clock)
        ensures
            clock == Clock::NoClock,
    {
        Clock::NoClock
    }
}

impl Clock {
    /// The text that stands for the format: `24hour`, `12hour` or `none`.
    pub fn to_string(&self) -> (text: String)
        ensures
            text@ == clock_text(*self),
    {
        match self {
            Clock::Hour24 => "24hour".to_owned(),
            Clock::Hour12 => "12hour".to_owned(),
            Clock::NoClock => "none".to_owned(),
        }
    }

    /// The format that `text` stands for; `None` for any other text.
    pub fn parse(text: &str) -> (clock: Option<Clock>)
        ensures
            clock == clock_from_text(text@),
    {
        let given = text.to_owned();
        if given == "24hour".to_owned() {
            Some(Clock::Hour24)
        } else if given == "12hour".to_owned() {
            Some(Clock::Hour12)
        } else if given == "none".to_owned() {
            Some(Clock::NoClock)
        } else {
            None
        }
    }
}

/// Reading the text of a format gives the format back.
pub proof fn lemma_clock_text_round_trip(clock: Clock)
    ensures
        clock_from_text(clock_text(clock)) == Some(clock),
{
    reveal_strlit("24hour");
    reveal_strlit("12hour");
    reveal_strlit("none");
    assert("24hour"@.len() == 6);
    assert("none"@.len() == 4);
    assert("12hour"@[0] == '1');
    assert("24hour"@[0] == '2');
}

/// The site name that is used where the configuration names none.
pub fn default_site_name() -> (name: String)
    ensures
        name@ == "Iron Shield Dashboard"@,
{
    "Iron Shield Dashboard".to_owned()
}

/// What a site entry says, as plain values.
pub struct SiteView {
    pub name: Seq<char>,
    pub url: Seq<char>,
    pub category: Seq<char>,
    pub tags: Seq<Seq<char>>,
    pub monitor_interval_secs: u64,
    pub disabled: bool,
    pub uptime_percentage: u64,
}

/// A bookmarked site that the dashboard shows and watches. Its name is its
/// id.
#[derive(Debug, Clone)]
pub struct Site {
    /// Display name of the site, by which its history is found.
    pub name: String,
    /// Address that is checked.
    pub url: String,
    /// Category under which the site is grouped.
    pub category: String,
    /// Tags for filtering.
    pub tags: Vec<String>,
    /// Seconds between two checks of the site.
    pub monitor_interval_secs: u64,
    /// Whether the site is left out of monitoring.
    pub disabled: bool,
    /// Availability in hundredths of a percent, filled in at run time.
    pub uptime_percentage: u64,
}

/// The texts of a vector of strings.
pub open spec fn text_seq(texts: Seq<String>) -> Seq<Seq<char>> {
    Seq::new(texts.len(), |i: int| texts[i]@)
}

impl View for Site {
    type V = SiteView;

    open spec fn view(&self) -> SiteView {
        SiteView {
            name: self.name@,
            url: self.url@,
            category: self.category@,
            tags: text_seq(self.tags@),
            monitor_interval_secs: self.monitor_interval_secs,
            disabled: self.disabled,
            uptime_percentage: self.uptime_percentage,
        }
    }
}

/// What a vector of sites says, element by element.
pub open spec fn site_seq(sites: Seq<Site>) -> Seq<SiteView> {
    Seq::new(sites.len(), |i: int| sites[i]@)
}

/// Configuration of the dashboard.
#[derive(Debug, Clone)]
pub struct Config {
    /// Name shown in the page title.
    pub site_name: String,
    /// Clock format.
    pub clock: Clock,
    /// Endpoint to which uptime telemetry is forwarded, if any.
    pub opentelemetry_endpoint: Option<String>,
    /// The bookmarked sites.
    pub sites: Vec<Site>,
}

impl Default for Config {
    /// The default site name, no clock, no endpoint and no sites.
    fn default() -> (config: Config)
        ensures
            config.site_name@ == "Iron Shield Dashboard"@,
            config.clock == Clock::NoClock,
            config.opentelemetry_endpoint is None,
            config.sites@.len() == 0,
    {
        Config {
            site_name: default_site_name(),
            clock: Clock::NoClock,
            opentelemetry_endpoint: None,
            sites: Vec::new(),
        }
    }
}

/// Kind of a change that the file watcher reports.
#[derive(Debug, Clone, Copy, PartialEq, Eq, Structural)]
pub enum ChangeKind {
    /// A file was modified.
    Modify,
    /// A file was created.
    Create,
    /// A file was removed.
    Remove,
    /// Anything else, such as a read.
    Other,
}

/// Whether a reported change calls for the configuration to be read again:
/// a file was modified, created or removed, and the configuration file is
/// among the paths of the change. `is_config_file` says of each path of the
/// change whether it is the configuration file.
pub fn is_reload_trigger(kind: ChangeKind, is_config_file: &Vec<bool>) -> (reload: bool)
    ensures
        reload == (kind != ChangeKind::Other && exists|i: int|
            0 <= i < is_config_file@.len() && #[trigger] is_config_file@[i]),
{
    match kind {
        ChangeKind::Other => {
            return false;
        },
        _ => {},
    }
    let mut i: usize = 0;
    while i < is_config_file.len()
        invariant
            i <= is_config_file@.len(),
            kind != ChangeKind::Other,
            forall|j: int| 0 <= j < i ==> !#[trigger] is_config_file@[j],
        decreases is_config_file@.len() - i,
    {
        if is_config_file[i] {
            return true;
        }
        i = i + 1;
    }
    false
}

} // verus!
