//! The connection settings: their defaults, where a settings file is looked
//! for, and how values from the environment override what a file gave.

use vstd::prelude::*;
use vstd::string::StringExecFns;

verus! {

/// The settings of the tool.
#[derive(Clone, Debug)]
pub struct Config {
    pub postgresql: PostgresConfig,
}

/// How to reach the store.
#[derive(Clone, Debug)]
pub struct PostgresConfig {
    pub host: String,
    pub port: u16,
    pub database: String,
    pub user: String,
    pub password: String,
    pub max_connections: u32,
}

/// The host used where none is given.
pub fn default_host() -> (host: String)
    ensures
        host@ == "localhost"@,
{
    String::from_str("localhost")
}

/// The port used where none is given.
pub fn default_port() -> (port: u16)
    ensures
        port == 5432,
{
    5432
}

/// The database used where none is given.
pub fn default_database() -> (database: String)
    ensures
        database@ == "bountycatch"@,
{
    String::from_str("bountycatch")
}

/// The user used where none is given.
pub fn default_user() -> (user: String)
    ensures
        user@ == "postgres"@,
{
    String::from_str("postgres")
}

/// The largest number of connections used where none is given.
pub fn default_pool_size() -> (size: u32)
    ensures
        size == 10,
{
    10
}

/// The settings as plain values.
pub ghost struct PostgresConfigView {
    pub host: Seq<char>,
    pub port: u16,
    pub database: Seq<char>,
    pub user: Seq<char>,
    pub password: Seq<char>,
    pub max_connections: u32,
}

impl View for PostgresConfig {
    type V = PostgresConfigView;

    open spec fn view(&self) -> PostgresConfigView {
        PostgresConfigView {
            host: self.host@,
            port: self.port,
            database: self.database@,
            user: self.user@,
            password: self.password@,
            max_connections: self.max_connections,
        }
    }
}

impl View for Config {
    type V = PostgresConfigView;

    open spec fn view(&self) -> PostgresConfigView {
        self.postgresql@
    }
}

/// The settings used where nothing is given.
pub open spec fn default_settings() -> PostgresConfigView {
    PostgresConfigView {
        host: "localhost"@,
        port: 5432,
        database: "bountycatch"@,
        user: "postgres"@,
        password: Seq::empty(),
        max_connections: 10,
    }
}

impl Default for PostgresConfig {
    fn default() -> (config: PostgresConfig)
        ensures
            config@ == default_settings(),
    {
        PostgresConfig {
            host: default_host(),
            port: default_port(),
            database: default_database(),
            user: default_user(),
            password: String::new(),
            max_connections: default_pool_size(),
        }
    }
}

impl Default for Config {
    fn default() -> (config: Config)
        ensures
            config@ == default_settings(),
    {
        Config { postgresql: PostgresConfig::default() }
    }
}

/// The port that `str::parse::<u16>` reads from a text, where it reads one.
pub uninterp spec fn parsed_port(text: Seq<char>) -> Option<u16>;

/// `str::parse::<u16>`: the number that the text stands for, or nothing where
/// the text is no number that fits. The result depends on the text alone and
/// is stated by name.
#[verifier::external_body]
fn parse_port(text: &str) -> (port: Option<u16>)
    ensures
        port == parsed_port(text@),
{
    text.parse::<u16>().ok()
}

/// What the environment holds for each setting that it can override; `None`
/// where a variable is not set.
pub struct Overrides {
    pub host: Option<String>,
    pub port: Option<String>,
    pub database: Option<String>,
    pub user: Option<String>,
    pub password: Option<String>,
}

/// The characters of a text that may be absent.
pub open spec fn text_of(value: Option<String>) -> Option<Seq<char>> {
    match value {
        Some(s) => Some(s@),
        None => None,
    }
}

/// A text setting after an override: the override where there is one.
pub open spec fn overridden(base: Seq<char>, over: Option<Seq<char>>) -> Seq<char> {
    match over {
        Some(s) => s,
        None => base,
    }
}

/// The port after an override: the override where there is one and it reads
/// as a port; a text that does not is passed over.
pub open spec fn overridden_port(base: u16, over: Option<Seq<char>>) -> u16 {
    match over {
        Some(s) => match parsed_port(s) {
            Some(p) => p,
            None => base,
        },
        None => base,
    }
}

/// The settings after the overrides. The pool size has no override.
pub open spec fn settings_with(base: PostgresConfigView, env: Overrides) -> PostgresConfigView {
    PostgresConfigView {
        host: overridden(base.host, text_of(env.host)),
        port: overridden_port(base.port, text_of(env.port)),
        database: overridden(base.database, text_of(env.database)),
        user: overridden(base.user, text_of(env.user)),
        password: overridden(base.password, text_of(env.password)),
        max_connections: base.max_connections,
    }
}

fn pick(base: String, over: Option<String>) -> (r: String)
    ensures
        r@ == overridden(base@, text_of(over)),
{
    match over {
        Some(s) => s,
        None => base,
    }
}

/// The port that results from a base and the text of an override, once the
/// text has been read.
pub fn pick_port(base: u16, read: Option<Option<u16>>) -> (port: u16)
    ensures
        port == match read {
            Some(Some(p)) => p,
            _ => base,
        },
{
    match read {
        Some(Some(p)) => p,
        _ => base,
    }
}

impl Config {
    /// Applies what the environment holds on top of settings that came from
    /// a file or from the defaults.
    pub fn with_overrides(self, env: Overrides) -> (config: Config)
        ensures
            config@ == settings_with(self@, env),
    {
        let base = self.postgresql;
        let read = match &env.port {
            Some(text) => Some(parse_port(text.as_str())),
            None => None,
        };
        Config {
            postgresql: PostgresConfig {
                host: pick(base.host, env.host),
                port: pick_port(base.port, read),
                database: pick(base.database, env.database),
                user: pick(base.user, env.user),
                password: pick(base.password, env.password),
                max_connections: base.max_connections,
            },
        }
    }
}

/// A place where a settings file is looked for.
#[derive(Clone, Copy, PartialEq, Eq, Structural, Debug)]
pub enum ConfigPlace {
    /// `bountycatch/config.json` under the user's configuration directory.
    UserConfig,
    /// `.bountycatch/config.json` under the user's home directory.
    Home,
    /// `/etc/bountycatch/config.json`.
    System,
    /// `config.json` beside the executable.
    BesideProgram,
    /// `config.json` in the working directory.
    WorkingDirectory,
}

/// The places in the order in which they are tried.
pub open spec fn search_order() -> Seq<ConfigPlace> {
    seq![
        ConfigPlace::UserConfig,
        ConfigPlace::Home,
        ConfigPlace::System,
        ConfigPlace::BesideProgram,
        ConfigPlace::WorkingDirectory,
    ]
}

/// The places in the order in which they are tried.
pub fn config_places() -> (places: Vec<ConfigPlace>)
    ensures
        places@ == search_order(),
{
    let mut places = Vec::new();
    places.push(ConfigPlace::UserConfig);
    places.push(ConfigPlace::Home);
    places.push(ConfigPlace::System);
    places.push(ConfigPlace::BesideProgram);
    places.push(ConfigPlace::WorkingDirectory);
    assert(places@ =~= search_order());
    places
}

/// The name of the settings file of a place, to be joined to the directory
/// that the place stands for; the system-wide one is a full path.
pub fn place_file(place: ConfigPlace) -> (name: &'static str)
    ensures
        name@ == match place {
            ConfigPlace::UserConfig => "bountycatch/config.json"@,
            ConfigPlace::Home => ".bountycatch/config.json"@,
            ConfigPlace::System => "/etc/bountycatch/config.json"@,
            ConfigPlace::BesideProgram => "config.json"@,
            ConfigPlace::WorkingDirectory => "config.json"@,
        },
{
    match place {
        ConfigPlace::UserConfig => "bountycatch/config.json",
        ConfigPlace::Home => ".bountycatch/config.json",
        ConfigPlace::System => "/etc/bountycatch/config.json",
        ConfigPlace::BesideProgram => "config.json",
        ConfigPlace::WorkingDirectory => "config.json",
    }
}

/// Picks the settings file: the first of the places, in their order, at
/// which a file was found.
pub fn first_found(found: &Vec<bool>) -> (at: Option<usize>)
    ensures
        match at {
            Some(i) => i < found.len() && found[i as int] && forall|j: int|
                0 <= j < i ==> !found[j],
            None => forall|j: int| 0 <= j < found.len() ==> !found[j],
        },
{
    let mut i: usize = 0;
    while i < found.len()
        invariant
            i <= found.len(),
            forall|j: int| 0 <= j < i ==> !found[j],
        decreases found.len() - i,
    {
        if found[i] {
            return Some(i);
        }
        i += 1;
    }
    None
}

} // verus!
