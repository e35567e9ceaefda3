//! The settings of the client.
use vstd::prelude::*;
use crate::text::{opt, trim_end_char, trimmed_end};

verus! {

/// Where the backend is, and how uploads are cut.
#[derive(Debug)]
pub struct AppConfig {
    pub api_url: String,
    pub web_url: String,
    pub ws_port: u16,
    pub max_concurrent_chunks: usize,
    pub chunk_size: usize,
}

/// What the settings hold.
#[verifier::ext_equal]
pub struct ConfigView {
    pub api_url: Seq<char>,
    pub web_url: Seq<char>,
    pub ws_port: u16,
    pub max_concurrent_chunks: usize,
    pub chunk_size: usize,
}

impl View for AppConfig {
    type V = ConfigView;

    open spec fn view(&self) -> ConfigView {
        ConfigView {
            api_url: self.api_url@,
            web_url: self.web_url@,
            ws_port: self.ws_port,
            max_concurrent_chunks: self.max_concurrent_chunks,
            chunk_size: self.chunk_size,
        }
    }
}

impl Clone for AppConfig {
    fn clone(&self) -> (r: Self)
        ensures
            r == *self,
    {
        AppConfig {
            api_url: self.api_url.clone(),
            web_url: self.web_url.clone(),
            ws_port: self.ws_port,
            max_concurrent_chunks: self.max_concurrent_chunks,
            chunk_size: self.chunk_size,
        }
    }
}

/// An address: the one of the environment, else the one that the build fixed, else `fallback`,
/// without slashes at its end.
pub open spec fn chosen_url(
    environment: Option<Seq<char>>,
    build: Option<Seq<char>>,
    fallback: Seq<char>,
) -> Seq<char> {
    trimmed_end(
        match environment {
            Some(url) => url,
            None => match build {
                Some(url) => url,
                None => fallback,
            },
        },
        '/',
    )
}

fn choose_url(environment: &Option<String>, build: &Option<String>, fallback: &str) -> (r: String)
    ensures
        r@ == chosen_url(opt(*environment), opt(*build), fallback@),
{
    match environment {
        Some(url) => trim_end_char(url, '/'),
        None => match build {
            Some(url) => trim_end_char(url, '/'),
            None => trim_end_char(fallback, '/'),
        },
    }
}

/// The settings to start from, given the addresses that the environment and the build name.
pub open spec fn default_config(
    api_env: Option<Seq<char>>,
    api_build: Option<Seq<char>>,
    web_env: Option<Seq<char>>,
    web_build: Option<Seq<char>>,
) -> ConfigView {
    ConfigView {
        api_url: chosen_url(api_env, api_build, "http://localhost:8000"@),
        web_url: chosen_url(web_env, web_build, "http://localhost:5173"@),
        ws_port: 17892,
        max_concurrent_chunks: 4,
        chunk_size: 0x50_0000,
    }
}

impl AppConfig {
    /// The settings to start from, given the addresses that the environment and the build name.
    pub fn default_with(
        api_env: &Option<String>,
        api_build: &Option<String>,
        web_env: &Option<String>,
        web_build: &Option<String>,
    ) -> (r: Self)
        ensures
            r@ == default_config(opt(*api_env), opt(*api_build), opt(*web_env), opt(*web_build)),
    {
        AppConfig {
            api_url: choose_url(api_env, api_build, "http://localhost:8000"),
            web_url: choose_url(web_env, web_build, "http://localhost:5173"),
            ws_port: 17892,
            max_concurrent_chunks: 4,
            chunk_size: 5 * 1024 * 1024,
        }
    }
}

/// The place of the settings; empty until they have been set up.
#[derive(Debug)]
pub struct ConfigCell {
    config: Option<AppConfig>,
}

impl View for ConfigCell {
    type V = Option<ConfigView>;

    closed spec fn view(&self) -> Option<ConfigView> {
        match self.config {
            Some(c) => Some(c@),
            None => None,
        }
    }
}

impl ConfigCell {
    /// A place without settings.
    pub fn new() -> (r: Self)
        ensures
            r@ is None,
    {
        ConfigCell { config: None }
    }

    /// Whether the settings have been set up.
    pub fn is_initialized(&self) -> (r: bool)
        ensures
            r == (self@ is Some),
    {
        self.config.is_some()
    }
}

/// Sets the settings up, if that has not been done.
pub fn init_config(cell: &mut ConfigCell, default: AppConfig)
    ensures
        final(cell)@ == initialized(old(cell)@, default@),
{
    if cell.config.is_none() {
        cell.config = Some(default);
    }
}

/// A copy of the settings, which must have been set up.
pub fn get_config(cell: &ConfigCell) -> (r: AppConfig)
    requires
        cell@ is Some,
    ensures
        cell@ == Some(r@),
{
    cell.config.as_ref().unwrap().clone()
}

/// Replaces the settings, if they have been set up.
pub fn update_config(cell: &mut ConfigCell, new_config: AppConfig)
    ensures
        final(cell)@ == updated(old(cell)@, new_config@),
{
    if cell.config.is_some() {
        cell.config = Some(new_config);
    }
}

/// Once the settings are set up they stay so, and setting them up again changes nothing; what was
/// put last is what is read.
pub proof fn law_config_is_set_once(first: ConfigView, second: ConfigView, cell: Option<ConfigView>)
    ensures
        initialized(initialized(cell, first), second) == initialized(cell, first),
        updated(initialized(cell, first), second) == Some(second),
        updated(None, second) is None,
{
}

/// The settings after they have been set up with a default.
pub open spec fn initialized(cell: Option<ConfigView>, default: ConfigView) -> Option<ConfigView> {
    match cell {
        Some(c) => Some(c),
        None => Some(default),
    }
}

/// The settings after they have been replaced.
pub open spec fn updated(cell: Option<ConfigView>, new_config: ConfigView) -> Option<ConfigView> {
    match cell {
        Some(_) => Some(new_config),
        None => None,
    }
}

/// An address is taken from the environment, else from the build, else it is the usual one; it never ends
/// with a slash, and is otherwise as it was given.
pub proof fn law_address_is_chosen(environment: Seq<char>, build: Option<Seq<char>>, fallback: Seq<char>)
    ensures
        chosen_url(Some(environment), build, fallback) == trimmed_end(environment, '/'),
        build is Some ==> chosen_url(None, build, fallback) == trimmed_end(build->0, '/'),
        chosen_url(None, None, fallback) == trimmed_end(fallback, '/'),
        environment.len() > 0 && environment.last() != '/' ==> chosen_url(Some(environment), build, fallback)
            == environment,
        ({
            let url = chosen_url(Some(environment), build, fallback);
            url.len() > 0 ==> url.last() != '/'
        }),
{
    crate::text::law_trimmed_end(environment, '/');
}

/// The settings that hold until others are given.
pub proof fn law_default_settings(
    api_env: Option<Seq<char>>,
    api_build: Option<Seq<char>>,
    web_env: Option<Seq<char>>,
    web_build: Option<Seq<char>>,
)
    ensures
        ({
            let config = default_config(api_env, api_build, web_env, web_build);
            &&& config.api_url == chosen_url(api_env, api_build, "http://localhost:8000"@)
            &&& config.web_url == chosen_url(web_env, web_build, "http://localhost:5173"@)
            &&& config.ws_port == 17892
            &&& config.max_concurrent_chunks == 4
            &&& config.chunk_size == 5 * 1024 * 1024
        }),
{
}

/// Settings that are set up stay what they were where they had been set up before, and settings that were
/// never set up cannot be replaced.
pub proof fn law_settings_change(config: ConfigView, other: ConfigView, c: AppConfig)
    ensures
        initialized(None, config) == Some(config),
        initialized(Some(other), config) == Some(other),
        updated(Some(other), config) == Some(config),
        updated(None, config) is None,
        c@.api_url == c.api_url@ && c@.web_url == c.web_url@ && c@.ws_port == c.ws_port && c@.chunk_size
            == c.chunk_size && c@.max_concurrent_chunks == c.max_concurrent_chunks,
{
}

} // verus!
