//! The settings form: what it carries, when it is valid and the
//! configuration that it stands for.

use crate::config::{
    clock_from_text, clock_text, site_seq, text_seq, Clock, Config, Site, SiteView,
    MIN_MONITOR_INTERVAL_SECS,
};
use crate::error::{ErrorView, IronShieldError};
use crate::text::{decimal, decimal_string, is_blank, is_blank_text, joined, trimmed, trimmed_text};
use vstd::prelude::*;

verus! {

/// What `url::Url::parse` makes of a text: nothing for a text that it parses
/// as an absolute URL, else the message of its error.
pub uninterp spec fn url_parse_error(text: Seq<char>) -> Option<Seq<char>>;

/// Parses `text` with `url::Url::parse` and gives the message of the error,
/// if there is one. The contract gives the outcome its name and claims
/// nothing more of it.
#[verifier::external_body]
fn parse_url(text: &str) -> (error: Option<String>)
    ensures
        error is Some == url_parse_error(text@) is Some,
        error matches Some(message) ==> url_parse_error(text@) == Some(message@),
{
    match url::Url::parse(text) {
        Ok(_) => None,
        Err(e) => Some(e.to_string()),
    }
}

/// What a site entry of the form says, as plain values.
pub struct SiteUpdateView {
    pub name: Seq<char>,
    pub url: Seq<char>,
    pub category: Seq<char>,
    pub tags: Seq<Seq<char>>,
    pub monitor_interval_secs: u64,
    pub disabled: bool,
}

/// One site entry of the settings form.
#[derive(Debug, Clone)]
pub struct SiteUpdate {
    /// Display name of the site.
    pub name: String,
    /// Address to monitor.
    pub url: String,
    /// Category of the site.
    pub category: String,
    /// Tags of the site.
    pub tags: Vec<String>,
    /// Seconds between two checks of the site.
    pub monitor_interval_secs: u64,
    /// Whether the site is left out of monitoring.
    pub disabled: bool,
}

impl View for SiteUpdate {
    type V = SiteUpdateView;

    open spec fn view(&self) -> SiteUpdateView {
        SiteUpdateView {
            name: self.name@,
            url: self.url@,
            category: self.category@,
            tags: text_seq(self.tags@),
            monitor_interval_secs: self.monitor_interval_secs,
            disabled: self.disabled,
        }
    }
}

/// What the entries of a vector of site entries say, element by element.
pub open spec fn site_update_seq(sites: Seq<SiteUpdate>) -> Seq<SiteUpdateView> {
    Seq::new(sites.len(), |i: int| sites[i]@)
}

/// What the settings form says, as plain values.
pub struct ConfigUpdateView {
    pub site_name: Seq<char>,
    pub clock: Seq<char>,
    pub opentelemetry_endpoint: Option<Seq<char>>,
    pub sites: Seq<SiteUpdateView>,
}

/// The settings form as it arrives.
#[derive(Debug, Clone)]
pub struct ConfigUpdate {
    /// Name of the dashboard.
    pub site_name: String,
    /// Clock format: `24hour`, `12hour` or `none`.
    pub clock: String,
    /// Endpoint to which uptime telemetry is forwarded, if any.
    pub opentelemetry_endpoint: Option<String>,
    /// The sites to monitor.
    pub sites: Vec<SiteUpdate>,
}

/// The text of an optional string.
pub open spec fn optional_text(text: Option<String>) -> Option<Seq<char>> {
    match text {
        Some(t) => Some(t@),
        None => None,
    }
}

impl View for ConfigUpdate {
    type V = ConfigUpdateView;

    open spec fn view(&self) -> ConfigUpdateView {
        ConfigUpdateView {
            site_name: self.site_name@,
            clock: self.clock@,
            opentelemetry_endpoint: optional_text(self.opentelemetry_endpoint),
            sites: site_update_seq(self.sites@),
        }
    }
}

/// Message for a site address that does not parse.
pub open spec fn invalid_url_message(url: Seq<char>) -> Seq<char> {
    "Invalid URL format: "@ + url
}

/// Message for a site whose interval is too short.
pub open spec fn short_interval_message(name: Seq<char>) -> Seq<char> {
    "Monitor interval for "@ + name + " must be at least "@ + decimal(
        MIN_MONITOR_INTERVAL_SECS as nat,
    ) + " seconds"@
}

/// Message for an endpoint that does not parse, from the parser's message.
pub open spec fn invalid_endpoint_message(cause: Seq<char>) -> Seq<char> {
    "Invalid OpenTelemetry endpoint: "@ + cause
}

/// What is wrong with a site entry, if anything: the first of an empty name,
/// an empty address, an address that does not parse and an interval below
/// the minimum.
pub open spec fn site_failure(site: SiteUpdateView) -> Option<Seq<char>> {
    if is_blank(site.name) {
        Some("Site name cannot be empty"@)
    } else if is_blank(site.url) {
        Some("Site URL cannot be empty"@)
    } else if url_parse_error(site.url) is Some {
        Some(invalid_url_message(site.url))
    } else if site.monitor_interval_secs < MIN_MONITOR_INTERVAL_SECS {
        Some(short_interval_message(site.name))
    } else {
        None
    }
}

/// What is wrong with the first site entry that is not valid, if any.
pub open spec fn first_site_failure(sites: Seq<SiteUpdateView>) -> Option<Seq<char>>
    decreases sites.len(),
{
    if sites.len() == 0 {
        None
    } else {
        match first_site_failure(sites.drop_last()) {
            Some(message) => Some(message),
            None => site_failure(sites.last()),
        }
    }
}

/// What is wrong with the endpoint, if anything: it is given and empty, or
/// it does not parse.
pub open spec fn endpoint_failure(endpoint: Option<Seq<char>>) -> Option<Seq<char>> {
    match endpoint {
        None => None,
        Some(text) => if is_blank(text) {
            Some("OpenTelemetry endpoint cannot be empty"@)
        } else {
            match url_parse_error(text) {
                Some(cause) => Some(invalid_endpoint_message(cause)),
                None => None,
            }
        },
    }
}

/// What is wrong with the form, if anything: the first of an empty dashboard
/// name, an unknown clock format, a site entry that is not valid and an
/// endpoint that is not valid.
pub open spec fn validation_failure(update: ConfigUpdateView) -> Option<Seq<char>> {
    if is_blank(update.site_name) {
        Some("Site name cannot be empty"@)
    } else if clock_from_text(update.clock) is None {
        Some("Invalid clock format"@)
    } else if first_site_failure(update.sites) is Some {
        first_site_failure(update.sites)
    } else {
        endpoint_failure(update.opentelemetry_endpoint)
    }
}

/// The outcome that stands for a failure: an error with its message, or
/// success where nothing is wrong.
pub open spec fn as_outcome(failure: Option<Seq<char>>, outcome: Result<(), IronShieldError>) -> bool {
    match failure {
        Some(message) => outcome matches Err(e) && e@ == ErrorView::Generic(message),
        None => outcome is Ok,
    }
}

/// Judges a site address from what the parser made of it: an error that
/// names the address where the parser gave an error, else success.
pub fn url_verdict(url: &str, parse_error: &Option<String>) -> (outcome: Result<
    (),
    IronShieldError,
>)
    ensures
        parse_error is None ==> outcome is Ok,
        parse_error is Some ==> (outcome matches Err(e) && e@ == ErrorView::Generic(
            invalid_url_message(url@),
        )),
{
    match parse_error {
        Some(_) => Err(IronShieldError::Generic(joined("Invalid URL format: ", url))),
        None => Ok(()),
    }
}

/// Judges an endpoint from what the parser made of it: an error that quotes
/// the parser's message where it gave one, else success.
pub fn endpoint_verdict(parse_error: &Option<String>) -> (outcome: Result<(), IronShieldError>)
    ensures
        parse_error is None ==> outcome is Ok,
        parse_error matches Some(cause) ==> (outcome matches Err(e) && e@ == ErrorView::Generic(
            invalid_endpoint_message(cause@),
        )),
{
    match parse_error {
        Some(cause) => Err(
            IronShieldError::Generic(joined("Invalid OpenTelemetry endpoint: ", cause.as_str())),
        ),
        None => Ok(()),
    }
}

impl SiteUpdate {
    /// Checks the entry: its name and its address are not empty, the address
    /// parses as a URL and the interval is not below the minimum.
    pub fn validate(&self) -> (outcome: Result<(), IronShieldError>)
        ensures
            as_outcome(site_failure(self@), outcome),
    {
        if is_blank_text(self.name.as_str()) {
            return Err(IronShieldError::generic("Site name cannot be empty"));
        }
        if is_blank_text(self.url.as_str()) {
            return Err(IronShieldError::generic("Site URL cannot be empty"));
        }
        let parse_error = parse_url(self.url.as_str());
        match url_verdict(self.url.as_str(), &parse_error) {
            Err(e) => {
                return Err(e);
            },
            Ok(_) => {},
        }
        if self.monitor_interval_secs < MIN_MONITOR_INTERVAL_SECS {
            let minimum = decimal_string(MIN_MONITOR_INTERVAL_SECS);
            let message = joined("Monitor interval for ", self.name.as_str()).concat(
                " must be at least ",
            ).concat(minimum.as_str()).concat(" seconds");
            return Err(IronShieldError::Generic(message));
        }
        Ok(())
    }

    /// The site that the entry stands for; its availability starts at 0.
    pub fn to_site(&self) -> (site: Site)
        ensures
            site@ == (SiteView {
                name: self@.name,
                url: self@.url,
                category: self@.category,
                tags: self@.tags,
                monitor_interval_secs: self@.monitor_interval_secs,
                disabled: self@.disabled,
                uptime_percentage: 0,
            }),
    {
        Site {
            name: self.name.clone(),
            url: self.url.clone(),
            category: self.category.clone(),
            tags: copy_texts(&self.tags),
            monitor_interval_secs: self.monitor_interval_secs,
            disabled: self.disabled,
            uptime_percentage: 0,
        }
    }

    /// The form entry that shows `site`.
    pub fn from_site(site: &Site) -> (entry: SiteUpdate)
        ensures
            entry@ == (SiteUpdateView {
                name: site@.name,
                url: site@.url,
                category: site@.category,
                tags: site@.tags,
                monitor_interval_secs: site@.monitor_interval_secs,
                disabled: site@.disabled,
            }),
    {
        SiteUpdate {
            name: site.name.clone(),
            url: site.url.clone(),
            category: site.category.clone(),
            tags: copy_texts(&site.tags),
            monitor_interval_secs: site.monitor_interval_secs,
            disabled: site.disabled,
        }
    }
}

/// A copy of a vector of strings.
pub fn copy_texts(texts: &Vec<String>) -> (copy: Vec<String>)
    ensures
        text_seq(copy@) == text_seq(texts@),
{
    let mut copy: Vec<String> = Vec::new();
    let mut i: usize = 0;
    while i < texts.len()
        invariant
            i <= texts@.len(),
            copy@.len() == i,
            forall|j: int| 0 <= j < i ==> (#[trigger] copy@[j])@ == texts@[j]@,
        decreases texts@.len() - i,
    {
        copy.push(texts[i].clone());
        i = i + 1;
    }
    assert(text_seq(copy@) =~= text_seq(texts@));
    copy
}

/// The site that each form entry stands for.
pub open spec fn sites_of(entries: Seq<SiteUpdateView>) -> Seq<SiteView> {
    Seq::new(
        entries.len(),
        |i: int|
            SiteView {
                name: entries[i].name,
                url: entries[i].url,
                category: entries[i].category,
                tags: entries[i].tags,
                monitor_interval_secs: entries[i].monitor_interval_secs,
                disabled: entries[i].disabled,
                uptime_percentage: 0,
            },
    )
}

/// The form entry that shows each site.
pub open spec fn entries_of(sites: Seq<SiteView>) -> Seq<SiteUpdateView> {
    Seq::new(
        sites.len(),
        |i: int|
            SiteUpdateView {
                name: sites[i].name,
                url: sites[i].url,
                category: sites[i].category,
                tags: sites[i].tags,
                monitor_interval_secs: sites[i].monitor_interval_secs,
                disabled: sites[i].disabled,
            },
    )
}

/// The endpoint as it is stored: without white space around it.
pub open spec fn stored_endpoint(endpoint: Option<Seq<char>>) -> Option<Seq<char>> {
    match endpoint {
        Some(text) => Some(trimmed(text)),
        None => None,
    }
}

impl ConfigUpdate {
    /// Checks the form: the dashboard name is not empty, the clock format is
    /// known, every site entry is valid, and the endpoint, where given, is
    /// not empty and parses as a URL. The error carries the message of the
    /// first rule that is broken.
    pub fn validate(&self) -> (outcome: Result<(), IronShieldError>)
        ensures
            as_outcome(validation_failure(self@), outcome),
    {
        if is_blank_text(self.site_name.as_str()) {
            return Err(IronShieldError::generic("Site name cannot be empty"));
        }
        if Clock::parse(self.clock.as_str()).is_none() {
            return Err(IronShieldError::generic("Invalid clock format"));
        }
        let ghost entries = site_update_seq(self.sites@);
        let mut i: usize = 0;
        assert(entries.subrange(0, 0) =~= Seq::<SiteUpdateView>::empty());
        while i < self.sites.len()
            invariant
                i <= self.sites@.len(),
                entries == site_update_seq(self.sites@),
                !is_blank(self@.site_name),
                clock_from_text(self@.clock) is Some,
                first_site_failure(entries.subrange(0, i as int)) is None,
            decreases self.sites@.len() - i,
        {
            proof {
                let next = entries.subrange(0, i as int + 1);
                assert(next.drop_last() =~= entries.subrange(0, i as int));
                assert(next.last() == self.sites@[i as int]@);
                lemma_first_site_failure_extends(entries, i as int + 1);
            }
            match self.sites[i].validate() {
                Err(e) => {
                    proof {
                        lemma_first_site_failure_stays(entries, i as int + 1);
                    }
                    return Err(e);
                },
                Ok(_) => {},
            }
            i = i + 1;
        }
        assert(entries.subrange(0, i as int) =~= entries);
        match &self.opentelemetry_endpoint {
            Some(endpoint) => {
                if is_blank_text(endpoint.as_str()) {
                    return Err(IronShieldError::generic("OpenTelemetry endpoint cannot be empty"));
                }
                let parse_error = parse_url(endpoint.as_str());
                endpoint_verdict(&parse_error)
            },
            None => Ok(()),
        }
    }

    /// The configuration that the form stands for: `Ok` exactly for a valid
    /// form. The endpoint is stored without white space around it, and the
    /// availability of every site starts at 0.
    pub fn to_config(&self) -> (outcome: Result<Config, IronShieldError>)
        ensures
            match validation_failure(self@) {
                Some(message) => outcome matches Err(e) && e@ == ErrorView::Generic(message),
                None => outcome matches Ok(config) && {
                    &&& config.site_name@ == self@.site_name
                    &&& Some(config.clock) == clock_from_text(self@.clock)
                    &&& optional_text(config.opentelemetry_endpoint) == stored_endpoint(
                        self@.opentelemetry_endpoint,
                    )
                    &&& site_seq(config.sites@) == sites_of(self@.sites)
                },
            },
    {
        match self.validate() {
            Err(e) => {
                return Err(e);
            },
            Ok(_) => {},
        }
        let clock = match Clock::parse(self.clock.as_str()) {
            Some(clock) => clock,
            None => {
                return Err(IronShieldError::generic("Invalid clock format"));
            },
        };
        let opentelemetry_endpoint = match &self.opentelemetry_endpoint {
            Some(endpoint) => Some(trimmed_text(endpoint.as_str())),
            None => None,
        };
        let mut sites: Vec<Site> = Vec::new();
        let mut i: usize = 0;
        while i < self.sites.len()
            invariant
                i <= self.sites@.len(),
                sites@.len() == i,
                forall|j: int| 0 <= j < i ==> (#[trigger] sites@[j])@ == sites_of(self@.sites)[j],
            decreases self.sites@.len() - i,
        {
            sites.push(self.sites[i].to_site());
            i = i + 1;
        }
        assert(site_seq(sites@) =~= sites_of(self@.sites));
        Ok(Config { site_name: self.site_name.clone(), clock, opentelemetry_endpoint, sites })
    }

    /// The form that shows `config`.
    pub fn from_config(config: &Config) -> (update: ConfigUpdate)
        ensures
            update@ == (ConfigUpdateView {
                site_name: config.site_name@,
                clock: clock_text(config.clock),
                opentelemetry_endpoint: optional_text(config.opentelemetry_endpoint),
                sites: entries_of(site_seq(config.sites@)),
            }),
    {
        let mut sites: Vec<SiteUpdate> = Vec::new();
        let mut i: usize = 0;
        while i < config.sites.len()
            invariant
                i <= config.sites@.len(),
                sites@.len() == i,
                forall|j: int|
                    0 <= j < i ==> (#[trigger] sites@[j])@ == entries_of(site_seq(config.sites@))[j],
            decreases config.sites@.len() - i,
        {
            sites.push(SiteUpdate::from_site(&config.sites[i]));
            i = i + 1;
        }
        assert(site_update_seq(sites@) =~= entries_of(site_seq(config.sites@)));
        let opentelemetry_endpoint = match &config.opentelemetry_endpoint {
            Some(endpoint) => Some(endpoint.clone()),
            None => None,
        };
        ConfigUpdate {
            site_name: config.site_name.clone(),
            clock: config.clock.to_string(),
            opentelemetry_endpoint,
            sites,
        }
    }
}

/// A prefix of the entries without a failure has none in any shorter prefix.
pub proof fn lemma_first_site_failure_extends(entries: Seq<SiteUpdateView>, n: int)
    requires
        0 < n <= entries.len(),
    ensures
        first_site_failure(entries.subrange(0, n)) == match first_site_failure(
            entries.subrange(0, n - 1),
        ) {
            Some(message) => Some(message),
            None => site_failure(entries[n - 1]),
        },
{
    let next = entries.subrange(0, n);
    assert(next.drop_last() =~= entries.subrange(0, n - 1));
    assert(next.last() == entries[n - 1]);
}

/// A failure among the first `n` entries is the failure of all entries.
pub proof fn lemma_first_site_failure_stays(entries: Seq<SiteUpdateView>, n: int)
    requires
        0 <= n <= entries.len(),
        first_site_failure(entries.subrange(0, n)) is Some,
    ensures
        first_site_failure(entries) == first_site_failure(entries.subrange(0, n)),
    decreases entries.len() - n,
{
    if n == entries.len() {
        assert(entries.subrange(0, n) =~= entries);
    } else {
        lemma_first_site_failure_extends(entries, n + 1);
        lemma_first_site_failure_stays(entries, n + 1);
    }
}

} // verus!
