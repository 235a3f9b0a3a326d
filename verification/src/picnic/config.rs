use vstd::prelude::*;

use crate::numbers::{decimal_digits, decimal_string};

verus! {

/// The countries Picnic serves.
#[derive(Copy, Clone, Debug, PartialEq, Eq, Structural, Hash)]
pub enum CountryCode {
    NL,
    DE,
}

/// The name of a country code: `NL` or `DE`.
pub open spec fn spec_country_name(c: CountryCode) -> Seq<char> {
    match c {
        CountryCode::NL => "NL"@,
        CountryCode::DE => "DE"@,
    }
}

/// The country code as it stands in a host name, in lower case: `nl` or `de`.
pub open spec fn spec_country_host(c: CountryCode) -> Seq<char> {
    match c {
        CountryCode::NL => "nl"@,
        CountryCode::DE => "de"@,
    }
}

impl CountryCode {
    /// The name of this country code: `NL` or `DE`.
    pub fn as_str(&self) -> (res: &'static str)
        ensures
            res@ == spec_country_name(*self),
    {
        match self {
            CountryCode::NL => "NL",
            CountryCode::DE => "DE",
        }
    }

    /// The country code as it stands in a host name: `nl` or `de`.
    pub fn host_part(&self) -> (res: &'static str)
        ensures
            res@ == spec_country_host(*self),
    {
        match self {
            CountryCode::NL => "nl",
            CountryCode::DE => "de",
        }
    }
}

/// The host of Picnic's storefront for a country.
pub open spec fn spec_host(c: CountryCode) -> Seq<char> {
    "https://storefront-prod."@ + spec_country_host(c) + ".picnicinternational.com"@
}

/// The API url for a country and API version.
pub open spec fn spec_picnic_api_url(c: CountryCode, api_version: u16) -> Seq<char> {
    spec_host(c) + "/api/"@ + decimal_digits(api_version as nat)
}

/// The url of static (unauthorised) content for a country.
pub open spec fn spec_picnic_static_url(c: CountryCode) -> Seq<char> {
    spec_host(c) + "/static"@
}

/// The user agent sent with every request.
pub open spec fn spec_picnic_user_agent() -> Seq<char> {
    "okhttp/3.12.2"@
}

/// An optional component of the Picnic API.
///
/// The API functions without it as well, but it provides more complete list information with it present.
/// An API key generated while these details are provided is only valid as long as they are *always*
/// provided.
#[derive(Clone, Debug, PartialEq, Eq)]
pub struct PicnicDetails {
    /// A combination of `client_id` and `client_version`, such as `30100;1.15.159;`.
    pub picnic_agent: String,
    /// Extracted from a decompiled app, a constant `30100` for now.
    pub client_id: String,
    /// Semver 3 part, such as `1.15.159`.
    pub client_version: String,
}

impl PicnicDetails {
    /// Details for the given client id and version; the agent is `{client_id};{client_version};`.
    pub fn new(client_id: String, client_version: String) -> (res: PicnicDetails)
        ensures
            res.client_id == client_id,
            res.client_version == client_version,
            res.picnic_agent@ == client_id@ + ";"@ + client_version@ + ";"@,
    {
        let mut agent = client_id.clone();
        agent.append(";");
        agent.append(client_version.as_str());
        agent.append(";");
        proof {
            assert(agent@ =~= client_id@ + ";"@ + client_version@ + ";"@);
        }
        PicnicDetails { picnic_agent: agent, client_id, client_version }
    }
}

impl Default for PicnicDetails {
    fn default() -> (res: PicnicDetails)
        ensures
            res.picnic_agent@ == "30100;1.15.159;"@,
            res.client_id@ == "30100"@,
            res.client_version@ == "1.15.159"@,
    {
        PicnicDetails {
            picnic_agent: String::from_str("30100;1.15.159;"),
            client_id: String::from_str("30100"),
            client_version: String::from_str("1.15.159"),
        }
    }
}

/// The configuration of a Picnic API client: its urls, user agent and optional [PicnicDetails].
pub struct Config {
    url: String,
    static_url: String,
    user_agent: String,
    picnic_details: Option<PicnicDetails>,
}

impl Config {
    pub closed spec fn spec_url(&self) -> Seq<char> {
        self.url@
    }

    pub closed spec fn spec_static_url(&self) -> Seq<char> {
        self.static_url@
    }

    pub closed spec fn spec_user_agent(&self) -> Seq<char> {
        self.user_agent@
    }

    pub closed spec fn spec_details(&self) -> Option<PicnicDetails> {
        self.picnic_details
    }

    /// A [Config] for a country and API version; the default is [CountryCode::NL], `api_version = 17`
    /// and no `picnic_details`.
    ///
    /// When `picnic_details` is given, any API key generated with it will always need it, and two
    /// factor authentication will need to be called.
    pub fn new(country_code: CountryCode, api_version: u16, picnic_details: Option<PicnicDetails>) -> (res: Config)
        ensures
            res.spec_url() == spec_picnic_api_url(country_code, api_version),
            res.spec_static_url() == spec_picnic_static_url(country_code),
            res.spec_user_agent() == spec_picnic_user_agent(),
            res.spec_details() == picnic_details,
    {
        let mut host = String::from_str("https://storefront-prod.");
        host.append(country_code.host_part());
        host.append(".picnicinternational.com");
        let mut url = host.clone();
        url.append("/api/");
        let version = decimal_string(api_version as u64);
        url.append(version.as_str());
        let mut static_url = host;
        static_url.append("/static");
        proof {
            assert(url@ =~= spec_picnic_api_url(country_code, api_version));
            assert(static_url@ =~= spec_picnic_static_url(country_code));
        }
        Config {
            url,
            static_url,
            user_agent: String::from_str("okhttp/3.12.2"),
            picnic_details,
        }
    }

    /// Returns the API url.
    pub fn url(&self) -> (res: &str)
        ensures
            res@ == self.spec_url(),
    {
        self.url.as_str()
    }

    /// Returns the URL for accessing static (unauthorised) content.
    pub fn static_url(&self) -> (res: &str)
        ensures
            res@ == self.spec_static_url(),
    {
        self.static_url.as_str()
    }

    /// Returns the user agent sent with every request.
    pub fn user_agent(&self) -> (res: &str)
        ensures
            res@ == self.spec_user_agent(),
    {
        self.user_agent.as_str()
    }

    /// Returns the details given at construction, if any.
    pub fn picnic_details(&self) -> (res: &Option<PicnicDetails>)
        ensures
            *res == self.spec_details(),
    {
        &self.picnic_details
    }

    /// Returns the Picnic agent if `picnic_details` was provided during construction.
    pub fn picnic_agent(&self) -> (res: Option<&str>)
        ensures
            match self.spec_details() {
                Some(d) => res matches Some(a) && a@ == d.picnic_agent@,
                None => res is None,
            },
    {
        match &self.picnic_details {
            Some(d) => Some(d.picnic_agent.as_str()),
            None => None,
        }
    }

    /// Returns the full url for the API and the provided suffix.
    pub fn get_full_url(&self, suffix: &str) -> (res: String)
        ensures
            res@ == self.spec_url() + suffix@,
    {
        let mut res = self.url.clone();
        res.append(suffix);
        res
    }
}

impl Default for Config {
    fn default() -> (res: Config)
        ensures
            res.spec_url() == spec_picnic_api_url(CountryCode::NL, 17),
            res.spec_static_url() == spec_picnic_static_url(CountryCode::NL),
            res.spec_user_agent() == spec_picnic_user_agent(),
            res.spec_details() is None,
    {
        Config::new(CountryCode::NL, 17, None)
    }
}

} // verus!
