//! The built-in list of sites.

use vstd::prelude::*;

verus! {

/// A site of the built-in list.
#[derive(Debug, Clone)]
pub struct Site {
    pub name: String,
    pub url: String,
    pub icon: String,
    pub tags: Vec<String>,
}

impl Site {
    /// The built-in list: OpenWeatherMap and Bing, each with two tags.
    pub fn load() -> (sites: Vec<Site>)
        ensures
            sites@.len() == 2,
            sites@[0].name@ == "OpenWeatherMap"@,
            sites@[0].url@ == "https://openweathermap.org/api"@,
            sites@[0].icon@
                == "http://openweathermap.org/themes/openweathermap/assets/vendor/owm/img/icons/logo_60x60.png"@,
            sites@[0].tags@.len() == 2,
            sites@[0].tags@[0]@ == "weather"@,
            sites@[0].tags@[1]@ == "project"@,
            sites@[1].name@ == "Bing"@,
            sites@[1].url@ == "https://bing.com"@,
            sites@[1].icon@ == sites@[0].icon@,
            sites@[1].tags@.len() == 2,
            sites@[1].tags@[0]@ == "search"@,
            sites@[1].tags@[1]@ == "project"@,
    {
        let mut weather_tags: Vec<String> = Vec::new();
        weather_tags.push("weather".to_owned());
        weather_tags.push("project".to_owned());
        let mut search_tags: Vec<String> = Vec::new();
        search_tags.push("search".to_owned());
        search_tags.push("project".to_owned());
        let mut sites: Vec<Site> = Vec::new();
        sites.push(
            Site {
                name: "OpenWeatherMap".to_owned(),
                url: "https://openweathermap.org/api".to_owned(),
                icon: "http://openweathermap.org/themes/openweathermap/assets/vendor/owm/img/icons/logo_60x60.png".to_owned(),
                tags: weather_tags,
            },
        );
        sites.push(
            Site {
                name: "Bing".to_owned(),
                url: "https://bing.com".to_owned(),
                icon: "http://openweathermap.org/themes/openweathermap/assets/vendor/owm/img/icons/logo_60x60.png".to_owned(),
                tags: search_tags,
            },
        );
        sites
    }
}

} // verus!
