//! The model of the dashboard page.

use crate::config::Config;
use vstd::prelude::*;

verus! {

/// What the dashboard page is rendered from.
#[derive(Debug, Clone)]
pub struct IndexTemplate {
    /// The configuration that the page shows.
    pub config: Config,
    /// The time shown when the page loads.
    pub current_time: String,
    /// The settings form, filled in, as JSON text.
    pub config_json: String,
}

impl IndexTemplate {
    /// The model of a page that shows `config`.
    pub fn new(config: Config, current_time: String, config_json: String) -> (page: IndexTemplate)
        ensures
            page.config == config,
            page.current_time == current_time,
            page.config_json == config_json,
    {
        IndexTemplate { config, current_time, config_json }
    }
}

} // verus!
