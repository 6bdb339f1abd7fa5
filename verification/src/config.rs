use crate::table::KeyedTable;
use vstd::prelude::*;

verus! {

/// What the user chose for one server, as it is kept between runs.
#[derive(Debug)]
pub struct ServerSettings {
    pub local_port: u16,
    /// `"SOCKS"` or `"HTTP"`.
    pub proxy_type: String,
    pub enabled: bool,
}

impl Clone for ServerSettings {
    fn clone(&self) -> (r: Self)
        ensures
            r == *self,
    {
        ServerSettings {
            local_port: self.local_port,
            proxy_type: self.proxy_type.clone(),
            enabled: self.enabled,
        }
    }
}

/// Saved settings as plain values.
pub struct SettingsView {
    pub local_port: u16,
    pub proxy_type: Seq<char>,
    pub enabled: bool,
}

impl View for ServerSettings {
    type V = SettingsView;

    open spec fn view(&self) -> SettingsView {
        SettingsView {
            local_port: self.local_port,
            proxy_type: self.proxy_type@,
            enabled: self.enabled,
        }
    }
}

/// A settings table as plain values.
pub open spec fn settings_views(table: Map<Seq<char>, ServerSettings>) -> Map<
    Seq<char>,
    SettingsView,
> {
    Map::new(|k: Seq<char>| table.contains_key(k), |k: Seq<char>| table[k]@)
}

/// The `enabled` flag of a stored entry that names none.
pub fn default_enabled() -> (r: bool)
    ensures
        r,
{
    true
}

/// The settings table: server key to what was saved for that server.
pub type SettingsTable = KeyedTable<ServerSettings>;

/// Everything that is kept between runs.
#[derive(Debug)]
pub struct Config {
    pub subscription_url: String,
    pub xray_binary_path: String,
    pub server_settings: SettingsTable,
    pub autostart: bool,
}

impl Default for Config {
    fn default() -> (r: Self)
        ensures
            r.subscription_url@ == Seq::<char>::empty(),
            r.xray_binary_path@ == Seq::<char>::empty(),
            r.server_settings@ == Map::<Seq<char>, ServerSettings>::empty(),
            !r.autostart,
    {
        Config {
            subscription_url: String::new(),
            xray_binary_path: String::new(),
            server_settings: KeyedTable::new(),
            autostart: false,
        }
    }
}

/// What was found where the configuration is kept.
#[derive(Debug)]
pub enum StoredConfig {
    /// Nothing is kept there yet.
    Absent,
    /// Something is there and could not be read; the text says why.
    Unreadable(String),
    /// What is there is no configuration document; the text says why.
    Malformed(String),
    /// The configuration that was read.
    Parsed(Config),
}

/// How writing the configuration ended.
#[derive(Debug)]
pub enum StoreOutcome {
    /// The configuration could not be turned into a document; the text
    /// says why.
    Unserializable(String),
    /// The document could not be written; the text says why.
    Unwritable(String),
    /// The document was written.
    Written,
}

/// What an unreadable configuration is reported as.
pub open spec fn read_failure(reason: Seq<char>) -> Seq<char> {
    "Failed to read config file: "@ + reason
}

/// What a malformed configuration is reported as.
pub open spec fn parse_failure(reason: Seq<char>) -> Seq<char> {
    "Failed to parse config JSON: "@ + reason
}

/// What a configuration that cannot be serialized is reported as.
pub open spec fn serialize_failure(reason: Seq<char>) -> Seq<char> {
    "Failed to serialize config: "@ + reason
}

/// What a configuration that cannot be written is reported as.
pub open spec fn write_failure(reason: Seq<char>) -> Seq<char> {
    "Failed to write config file: "@ + reason
}

impl Config {
    /// The configuration to work with, given what was found in storage:
    /// the stored one; the empty default where nothing is stored yet; an
    /// error where something is stored that cannot be read or is no
    /// configuration, which is never taken for an empty one.
    pub fn load(stored: StoredConfig) -> (r: Result<Config, String>)
        ensures
            match stored {
                StoredConfig::Absent => r is Ok && r->Ok_0.subscription_url@.len() == 0
                    && r->Ok_0.xray_binary_path@.len() == 0 && r->Ok_0.server_settings@ == Map::<
                    Seq<char>,
                    ServerSettings,
                >::empty() && !r->Ok_0.autostart,
                StoredConfig::Unreadable(reason) => r is Err && r->Err_0@ == read_failure(reason@),
                StoredConfig::Malformed(reason) => r is Err && r->Err_0@ == parse_failure(reason@),
                StoredConfig::Parsed(config) => r == Ok::<Config, String>(config),
            },
    {
        match stored {
            StoredConfig::Absent => Ok(Config::default()),
            StoredConfig::Unreadable(reason) => Err(
                String::from_str("Failed to read config file: ").concat(reason.as_str()),
            ),
            StoredConfig::Malformed(reason) => Err(
                String::from_str("Failed to parse config JSON: ").concat(reason.as_str()),
            ),
            StoredConfig::Parsed(config) => Ok(config),
        }
    }

    /// Reports how saving the configuration ended: a failure to serialize
    /// or to write is handed on with its reason.
    pub fn save(outcome: StoreOutcome) -> (r: Result<(), String>)
        ensures
            match outcome {
                StoreOutcome::Unserializable(reason) => r is Err && r->Err_0@ == serialize_failure(
                    reason@,
                ),
                StoreOutcome::Unwritable(reason) => r is Err && r->Err_0@ == write_failure(reason@),
                StoreOutcome::Written => r is Ok,
            },
    {
        match outcome {
            StoreOutcome::Unserializable(reason) => Err(
                String::from_str("Failed to serialize config: ").concat(reason.as_str()),
            ),
            StoreOutcome::Unwritable(reason) => Err(
                String::from_str("Failed to write config file: ").concat(reason.as_str()),
            ),
            StoreOutcome::Written => Ok(()),
        }
    }

    /// Whether both the subscription URL and the engine's path are set.
    pub open spec fn configured(&self) -> bool {
        self.subscription_url@.len() > 0 && self.xray_binary_path@.len() > 0
    }

    /// Tests whether a reconciliation cycle has what it needs to go on.
    pub fn is_configured(&self) -> (r: bool)
        ensures
            r == self.configured(),
    {
        !self.subscription_url.as_str().is_empty() && !self.xray_binary_path.as_str().is_empty()
    }
}

} // verus!
