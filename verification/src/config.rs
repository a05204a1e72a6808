//! The configuration of the server: how files are merged, and what has to hold
//! of the result.

use vstd::prelude::*;
use crate::net::SocketAddr;

verus! {

/// Images that are larger are not sent to clients.
pub const MAX_IMAGE_SIZE: u64 = 1048576;

/// What names of applications look like.
pub const NAME_PATTERN: &'static str = "\\A[a-z][a-z0-9-_]{0,256}\\z";

pub open spec fn is_lower(c: char) -> bool {
    'a' <= c <= 'z'
}

/// A name begins with a lower case letter, and goes on with up to 256 lower
/// case letters, digits, hyphens and underscores.
pub open spec fn is_app_name(name: Seq<char>) -> bool {
    &&& 1 <= name.len() <= 257
    &&& is_lower(name[0])
    &&& forall|i: int|
        1 <= i < name.len() ==> is_lower(#[trigger] name[i]) || '0' <= name[i] <= '9' || name[i]
            == '-' || name[i] == '_'
}

/// `regex::Regex::new` and `regex::Regex::is_match`, for the pattern of names:
/// whether a text is one.
#[verifier::external_body]
fn regex_is_match(pattern: &str, text: &str) -> (matched: bool)
    requires
        pattern@ == NAME_PATTERN@,
    ensures
        matched == is_app_name(text@),
{
    regex::Regex::new(pattern).unwrap().is_match(text)
}

#[derive(Debug, Clone, Copy, PartialEq, Eq, Structural)]
pub enum MaxConnections {
    Value(u32),
    Infinity,
}

/// A configuration file. What it leaves open is missing.
pub struct ParsedConfig {
    pub include_apps: Option<Vec<String>>,
    pub apps: Option<Vec<ParsedApp>>,
    pub server: Option<ParsedServer>,
    pub default_app_settings: Option<DefaultAppSettings>,
}

pub struct ParsedServer {
    pub bind: Option<String>,
    pub bind_systemd: Option<bool>,
    pub tls_cert: Option<String>,
    pub tls_key: Option<String>,
    pub worker_threads: Option<u32>,
    pub max_connections: Option<MaxConnections>,
}

#[derive(Debug, Clone, Copy, PartialEq, Eq, Structural)]
pub struct DefaultAppSettings {
    pub xwayland: Option<bool>,
    pub force_1x_scale: Option<bool>,
}

pub struct ParsedApp {
    pub name: String,
    pub description: Option<String>,
    pub command: Vec<String>,
    pub environment: Option<Vec<(String, String)>>,
    pub xwayland: Option<bool>,
    pub force_1x_scale: Option<bool>,
}

/// The configuration of the server.
pub struct Config {
    pub server: ServerConfig,
    /// No two applications have the same name.
    pub apps: Vec<AppConfig>,
    pub bug_report_dir: Option<String>,
}

pub struct ServerConfig {
    pub bind: String,
    pub bind_systemd: bool,
    pub tls_cert: Option<String>,
    pub tls_key: Option<String>,
    pub worker_threads: u32,
    /// No limit, if missing.
    pub max_connections: Option<u32>,
}

pub struct AppConfig {
    pub name: String,
    pub description: Option<String>,
    pub command: Vec<String>,
    pub env: Vec<(String, String)>,
    pub xwayland: bool,
    pub force_1x_scale: bool,
}

pub enum ConfigError {
    InvalidAppName(String),
    DuplicateAppName(String),
    NoApps,
    EmptyCommand(String),
    InvalidAddress(String),
    /// With the address as a text.
    TlsRequired(String),
    CertificateNotFound(String),
    KeyNotFound(String),
    InvalidExtension,
}

pub open spec fn or<T>(value: Option<T>, default: Option<T>) -> Option<T> {
    if value is Some {
        value
    } else {
        default
    }
}

fn pick<T>(value: Option<T>, default: Option<T>) -> (picked: Option<T>)
    ensures
        picked == or(value, default),
{
    match value {
        Some(v) => Some(v),
        None => default,
    }
}

/// Two sections of one kind, merged field by field.
pub open spec fn merged_server(first: ParsedServer, second: ParsedServer) -> ParsedServer {
    ParsedServer {
        bind: or(first.bind, second.bind),
        bind_systemd: or(first.bind_systemd, second.bind_systemd),
        tls_cert: or(first.tls_cert, second.tls_cert),
        tls_key: or(first.tls_key, second.tls_key),
        worker_threads: or(first.worker_threads, second.worker_threads),
        max_connections: or(first.max_connections, second.max_connections),
    }
}

pub open spec fn merged_settings(
    first: DefaultAppSettings,
    second: DefaultAppSettings,
) -> DefaultAppSettings {
    DefaultAppSettings {
        xwayland: or(first.xwayland, second.xwayland),
        force_1x_scale: or(first.force_1x_scale, second.force_1x_scale),
    }
}

/// Two files, merged: what the first sets has precedence.
pub open spec fn merged(first: ParsedConfig, second: ParsedConfig) -> ParsedConfig {
    ParsedConfig {
        include_apps: or(first.include_apps, second.include_apps),
        apps: or(first.apps, second.apps),
        server: match (first.server, second.server) {
            (Some(a), Some(b)) => Some(merged_server(a, b)),
            (a, b) => or(a, b),
        },
        default_app_settings: match (first.default_app_settings, second.default_app_settings) {
            (Some(a), Some(b)) => Some(merged_settings(a, b)),
            (a, b) => or(a, b),
        },
    }
}

impl ParsedConfig {
    /// Fills in what is missing.
    pub fn converge(self, defaults: ParsedConfig) -> (result: ParsedConfig)
        ensures
            result == merged(self, defaults),
    {
        ParsedConfig {
            include_apps: pick(self.include_apps, defaults.include_apps),
            apps: pick(self.apps, defaults.apps),
            server: match (self.server, defaults.server) {
                (Some(a), Some(b)) => Some(
                    ParsedServer {
                        bind: pick(a.bind, b.bind),
                        bind_systemd: pick(a.bind_systemd, b.bind_systemd),
                        tls_cert: pick(a.tls_cert, b.tls_cert),
                        tls_key: pick(a.tls_key, b.tls_key),
                        worker_threads: pick(a.worker_threads, b.worker_threads),
                        max_connections: pick(a.max_connections, b.max_connections),
                    },
                ),
                (a, b) => pick(a, b),
            },
            default_app_settings: match (
                self.default_app_settings,
                defaults.default_app_settings,
            ) {
                (Some(a), Some(b)) => Some(
                    DefaultAppSettings {
                        xwayland: pick(a.xwayland, b.xwayland),
                        force_1x_scale: pick(a.force_1x_scale, b.force_1x_scale),
                    },
                ),
                (a, b) => pick(a, b),
            },
        }
    }

    /// The settings of the server: those of the file, if there is one, filled
    /// in with the defaults.
    pub fn with_defaults(file: Option<ParsedConfig>, defaults: ParsedConfig) -> (result:
        ParsedConfig)
        ensures
            result == match file {
                Some(file) => merged(file, defaults),
                None => defaults,
            },
            defaults.is_complete() ==> result.is_complete(),
    {
        match file {
            Some(file) => file.converge(defaults),
            None => defaults,
        }
    }

    /// Every setting that cannot be missing is there.
    pub open spec fn is_complete(self) -> bool {
        &&& self.server is Some
        &&& self.server->0.bind is Some
        &&& self.server->0.bind_systemd is Some
        &&& self.server->0.worker_threads is Some
        &&& self.server->0.max_connections is Some
        &&& self.default_app_settings is Some
        &&& self.default_app_settings->0.xwayland is Some
        &&& self.default_app_settings->0.force_1x_scale is Some
    }

    /// The paths that are searched for more applications: those of the file,
    /// then those of the command line.
    pub fn includes(&self, command_line: &Vec<String>) -> (paths: Vec<String>)
        ensures
            paths@ == (match self.include_apps {
                Some(list) => list@,
                None => Seq::empty(),
            }) + command_line@,
    {
        let mut paths: Vec<String> = Vec::new();
        if let Some(list) = &self.include_apps {
            push_all(&mut paths, list);
        }
        push_all(&mut paths, command_line);
        assert(paths@ =~= (match self.include_apps {
            Some(list) => list@,
            None => Seq::empty(),
        }) + command_line@);
        paths
    }
}

fn push_all(to: &mut Vec<String>, from: &Vec<String>)
    ensures
        final(to)@ == old(to)@ + from@,
{
    let mut i: usize = 0;
    assert(from@.take(0) =~= Seq::empty());
    assert(to@ + Seq::<String>::empty() =~= to@);
    while i < from.len()
        invariant
            i <= from@.len(),
            to@ == old(to)@ + from@.take(i as int),
        decreases from.len() - i,
    {
        to.push(from[i].clone());
        assert(from@.take(i + 1) =~= from@.take(i as int).push(from@[i as int]));
        assert(to@ =~= old(to)@ + from@.take(i + 1));
        i += 1;
    }
    assert(from@.take(i as int) =~= from@);
}

/// A complete file stays complete whatever it fills in.
pub proof fn defaults_complete_any_file(file: ParsedConfig, defaults: ParsedConfig)
    requires
        defaults.is_complete(),
    ensures
        merged(file, defaults).is_complete(),
{
}

/// A setting of a file is never overridden by a default.
pub proof fn file_has_precedence(file: ParsedConfig, defaults: ParsedConfig)
    requires
        file.server is Some,
    ensures
        file.server->0.bind is Some ==> merged(file, defaults).server->0.bind
            == file.server->0.bind,
        file.server->0.tls_cert is Some ==> merged(file, defaults).server->0.tls_cert
            == file.server->0.tls_cert,
        file.server->0.tls_key is Some ==> merged(file, defaults).server->0.tls_key
            == file.server->0.tls_key,
        file.server->0.max_connections is Some ==> merged(file, defaults).server->0.max_connections
            == file.server->0.max_connections,
        file.apps is Some ==> merged(file, defaults).apps == file.apps,
{
}

/// An application, with what it leaves open taken from the defaults.
pub open spec fn is_app_for(app: AppConfig, parsed: ParsedApp, defaults: DefaultAppSettings) -> bool {
    &&& app.name == parsed.name
    &&& app.description == parsed.description
    &&& app.command == parsed.command
    &&& app.env@ == match parsed.environment {
        Some(env) => env@,
        None => Seq::empty(),
    }
    &&& app.xwayland == or(parsed.xwayland, defaults.xwayland)->0
    &&& app.force_1x_scale == or(parsed.force_1x_scale, defaults.force_1x_scale)->0
}

/// The name of an application was used by one before it.
pub open spec fn is_duplicate(apps: Seq<ParsedApp>, i: int) -> bool {
    exists|j: int| 0 <= j < i && (#[trigger] apps[j]).name@ == apps[i].name@
}

/// The first application whose name cannot be used.
pub open spec fn first_rejected(apps: Seq<ParsedApp>, i: int) -> bool {
    &&& 0 <= i < apps.len()
    &&& !is_app_name(apps[i].name@) || is_duplicate(apps, i)
    &&& forall|j: int|
        0 <= j < i ==> is_app_name((#[trigger] apps[j]).name@) && !is_duplicate(apps, j)
}

/// The settings of the server, from a complete section.
pub open spec fn server_settings(server: ParsedServer) -> ServerConfig {
    ServerConfig {
        bind: server.bind->0,
        bind_systemd: server.bind_systemd->0,
        tls_cert: server.tls_cert,
        tls_key: server.tls_key,
        worker_threads: server.worker_threads->0,
        max_connections: match server.max_connections->0 {
            MaxConnections::Value(n) => Some(n),
            MaxConnections::Infinity => None,
        },
    }
}

/// All applications of the configuration: those of the file, then those that
/// were found elsewhere.
pub open spec fn all_apps(input: ParsedConfig, additional: Seq<ParsedApp>) -> Seq<ParsedApp> {
    (match input.apps {
        Some(apps) => apps@,
        None => Seq::empty(),
    }) + additional
}

impl Config {
    /// Names are well-formed and different.
    pub open spec fn names_ok(self) -> bool {
        &&& forall|i: int|
            0 <= i < self.apps@.len() ==> is_app_name((#[trigger] self.apps@[i]).name@)
        &&& forall|i: int, j: int|
            0 <= i < j < self.apps@.len() ==> (#[trigger] self.apps@[i]).name@ != (
            #[trigger] self.apps@[j]).name@
    }

    /// Builds the configuration from a complete file, and from applications
    /// that were found elsewhere.
    pub fn build(input: ParsedConfig, additional: Vec<ParsedApp>) -> (result: Result<
        Config,
        ConfigError,
    >)
        requires
            input.is_complete(),
        ensures
            ({
                let apps = all_apps(input, additional@);
                let server = input.server->0;
                match result {
                    Ok(config) => {
                        &&& forall|i: int| !first_rejected(apps, i)
                        &&& config.names_ok()
                        &&& config.server == server_settings(server)
                        &&& config.bug_report_dir is None
                        &&& config.apps@.len() == apps.len()
                        &&& forall|i: int|
                            0 <= i < apps.len() ==> is_app_for(
                                #[trigger] config.apps@[i],
                                apps[i],
                                input.default_app_settings->0,
                            )
                    },
                    Err(err) => exists|i: int| #[trigger]
                        first_rejected(apps, i) && err == if !is_app_name(apps[i].name@) {
                            ConfigError::InvalidAppName(apps[i].name)
                        } else {
                            ConfigError::DuplicateAppName(apps[i].name)
                        },
                }
            }),
    {
        let ghost apps = all_apps(input, additional@);
        let server = input.server.unwrap();
        let defaults = input.default_app_settings.unwrap();
        let mut rest: Vec<ParsedApp> = match input.apps {
            Some(list) => list,
            None => Vec::new(),
        };
        let mut more = additional;
        rest.append(&mut more);
        assert(rest@ =~= apps);
        assert(apps.skip(0) =~= apps);
        let mut built: Vec<AppConfig> = Vec::new();
        while rest.len() > 0
            invariant
                built@.len() + rest@.len() == apps.len(),
                rest@ == apps.skip(built@.len() as int),
                apps == all_apps(input, additional@),
                defaults == input.default_app_settings->0,
                defaults.xwayland is Some,
                defaults.force_1x_scale is Some,
                forall|j: int|
                    0 <= j < built@.len() ==> is_app_for(
                        #[trigger] built@[j],
                        apps[j],
                        defaults,
                    ),
                forall|j: int|
                    0 <= j < built@.len() ==> is_app_name((#[trigger] apps[j]).name@)
                        && !is_duplicate(apps, j),
            decreases rest.len(),
        {
            let ghost n = built@.len() as int;
            let parsed = rest.remove(0);
            assert(parsed == apps[n]);
            assert(rest@ =~= apps.skip(n + 1));
            if !regex_is_match(NAME_PATTERN, parsed.name.as_str()) {
                assert(first_rejected(apps, n));
                return Err(ConfigError::InvalidAppName(parsed.name));
            }
            if has_name(&built, &parsed.name) {
                proof {
                    let j = choose|j: int|
                        0 <= j < built@.len() && (#[trigger] built@[j]).name@ == parsed.name@;
                    assert(is_app_for(built@[j], apps[j], defaults));
                    assert(apps[j].name@ == apps[n].name@);
                    assert(first_rejected(apps, n));
                }
                return Err(ConfigError::DuplicateAppName(parsed.name));
            }
            proof {
                assert(!is_duplicate(apps, n)) by {
                    if is_duplicate(apps, n) {
                        let j = choose|j: int|
                            0 <= j < n && (#[trigger] apps[j]).name@ == apps[n].name@;
                        assert(is_app_for(built@[j], apps[j], defaults));
                    }
                }
            }
            built.push(
                AppConfig {
                    name: parsed.name,
                    description: parsed.description,
                    command: parsed.command,
                    env: match parsed.environment {
                        Some(env) => env,
                        None => Vec::new(),
                    },
                    xwayland: pick(parsed.xwayland, defaults.xwayland).unwrap(),
                    force_1x_scale: pick(parsed.force_1x_scale, defaults.force_1x_scale).unwrap(),
                },
            );
        }
        let config = Config {
            server: ServerConfig {
                bind: server.bind.unwrap(),
                bind_systemd: server.bind_systemd.unwrap(),
                tls_cert: server.tls_cert,
                tls_key: server.tls_key,
                worker_threads: server.worker_threads.unwrap(),
                max_connections: match server.max_connections.unwrap() {
                    MaxConnections::Value(n) => Some(n),
                    MaxConnections::Infinity => None,
                },
            },
            apps: built,
            bug_report_dir: None,
        };
        proof {
            assert forall|i: int, j: int| 0 <= i < j < built@.len() implies (
            #[trigger] built@[i]).name@ != (#[trigger] built@[j]).name@ by {
                assert(is_app_for(built@[i], apps[i], defaults));
                assert(is_app_for(built@[j], apps[j], defaults));
                assert(!is_duplicate(apps, j));
                if built@[i].name@ == built@[j].name@ {
                    assert(apps[i].name@ == apps[j].name@);
                }
            }
            assert forall|i: int| 0 <= i < built@.len() implies is_app_name(
                (#[trigger] built@[i]).name@,
            ) by {
                assert(is_app_for(built@[i], apps[i], defaults));
                assert(is_app_name(apps[i].name@));
            }
        }
        Ok(config)
    }
}

fn has_name(apps: &Vec<AppConfig>, name: &String) -> (found: bool)
    ensures
        found == exists|j: int| 0 <= j < apps@.len() && (#[trigger] apps@[j]).name@ == name@,
{
    let mut i: usize = 0;
    while i < apps.len()
        invariant
            i <= apps@.len(),
            forall|j: int| 0 <= j < i ==> (#[trigger] apps@[j]).name@ != name@,
        decreases apps.len() - i,
    {
        if apps[i].name == *name {
            return true;
        }
        i += 1;
    }
    false
}

/// What the address to listen on stands for, with the text that names it.
pub struct ResolvedAddr {
    pub addr: SocketAddr,
    pub text: String,
}

/// What is wrong with a configuration, if anything is. The address, and which
/// files exist, is found out outside.
pub open spec fn is_flaw(
    config: Config,
    resolved: Option<ResolvedAddr>,
    cert_exists: bool,
    key_exists: bool,
    err: ConfigError,
) -> bool {
    let empty = exists|i: int| first_empty_command(config.apps@, i);
    if config.apps@.len() == 0 {
        err is NoApps
    } else if empty {
        exists|i: int| #[trigger]
            first_empty_command(config.apps@, i) && err == ConfigError::EmptyCommand(
                config.apps@[i].name,
            )
    } else if resolved is None {
        err == ConfigError::InvalidAddress(config.server.bind)
    } else if resolved->0.addr.ip.spec_requires_tls() && (config.server.tls_cert is None
        || config.server.tls_key is None) {
        err == ConfigError::TlsRequired(resolved->0.text)
    } else if config.server.tls_cert is Some && !cert_exists {
        err == ConfigError::CertificateNotFound(config.server.tls_cert->0)
    } else if config.server.tls_key is Some && !key_exists {
        err == ConfigError::KeyNotFound(config.server.tls_key->0)
    } else {
        false
    }
}

/// The first application that has nothing to run.
pub open spec fn first_empty_command(apps: Seq<AppConfig>, i: int) -> bool {
    &&& 0 <= i < apps.len()
    &&& apps[i].command@.len() == 0
    &&& forall|j: int| 0 <= j < i ==> (#[trigger] apps[j]).command@.len() > 0
}

/// A configuration that the server can start with.
pub open spec fn is_usable(
    config: Config,
    resolved: Option<ResolvedAddr>,
    cert_exists: bool,
    key_exists: bool,
) -> bool {
    &&& config.apps@.len() > 0
    &&& forall|i: int| 0 <= i < config.apps@.len() ==> (#[trigger] config.apps@[i]).command@.len() > 0
    &&& resolved is Some
    &&& resolved->0.addr.ip.spec_requires_tls() ==> config.server.tls_cert is Some
        && config.server.tls_key is Some
    &&& config.server.tls_cert is Some ==> cert_exists
    &&& config.server.tls_key is Some ==> key_exists
}

impl Config {
    /// Checks the configuration as a whole. `resolved` is what the address to
    /// listen on stands for; the last two arguments say whether the files with
    /// the certificate and the key exist, if they are set.
    pub fn validate(&self, resolved: &Option<ResolvedAddr>, cert_exists: bool, key_exists: bool) -> (
    result: Result<(), ConfigError>)
        ensures
            result is Ok <==> is_usable(*self, *resolved, cert_exists, key_exists),
            result matches Err(err) ==> is_flaw(*self, *resolved, cert_exists, key_exists, err),
    {
        if self.apps.len() == 0 {
            return Err(ConfigError::NoApps);
        }
        let mut i: usize = 0;
        while i < self.apps.len()
            invariant
                i <= self.apps@.len(),
                self.apps@.len() > 0,
                forall|j: int| 0 <= j < i ==> (#[trigger] self.apps@[j]).command@.len() > 0,
            decreases self.apps.len() - i,
        {
            if self.apps[i].command.len() == 0 {
                assert(first_empty_command(self.apps@, i as int));
                return Err(ConfigError::EmptyCommand(self.apps[i].name.clone()));
            }
            i += 1;
        }
        assert(forall|k: int| !first_empty_command(self.apps@, k));
        let resolved = match resolved {
            Some(resolved) => resolved,
            None => {
                return Err(ConfigError::InvalidAddress(self.server.bind.clone()));
            },
        };
        if resolved.addr.ip.requires_tls() && (self.server.tls_cert.is_none()
            || self.server.tls_key.is_none()) {
            return Err(ConfigError::TlsRequired(resolved.text.clone()));
        }
        if let Some(cert) = &self.server.tls_cert {
            if !cert_exists {
                return Err(ConfigError::CertificateNotFound(cert.clone()));
            }
        }
        if let Some(key) = &self.server.tls_key {
            if !key_exists {
                return Err(ConfigError::KeyNotFound(key.clone()));
            }
        }
        Ok(())
    }
}

/// A server that may be reached from anywhere has a certificate and a key.
pub proof fn public_server_has_tls(
    config: Config,
    resolved: ResolvedAddr,
    cert_exists: bool,
    key_exists: bool,
)
    requires
        is_usable(config, Some(resolved), cert_exists, key_exists),
        resolved.addr.ip.spec_is_global() || resolved.addr.ip.spec_is_unspecified(),
    ensures
        config.server.tls_cert is Some,
        config.server.tls_key is Some,
        cert_exists,
        key_exists,
{
}

impl ConfigError {
    /// The text of an error.
    pub open spec fn text(self) -> Seq<char> {
        match self {
            ConfigError::InvalidAppName(name) => "invalid app name: "@ + name@,
            ConfigError::DuplicateAppName(name) => "duplicate app name: "@ + name@,
            ConfigError::NoApps => "at least one application must be defined"@,
            ConfigError::EmptyCommand(name) => "empty command for application \""@ + name@ + "\""@,
            ConfigError::InvalidAddress(bind) => "invalid address \""@ + bind@ + "\""@,
            ConfigError::TlsRequired(addr) => "TLS required for non-private address \""@ + addr@
                + "\""@,
            ConfigError::CertificateNotFound(path) => "TLS certificate not found at "@ + path@,
            ConfigError::KeyNotFound(path) => "TLS private key not found at "@ + path@,
            ConfigError::InvalidExtension => "invalid file extension"@,
        }
    }

    pub fn message(&self) -> (message: String)
        ensures
            message@ == self.text(),
    {
        proof {
            reveal_strlit("");
        }
        match self {
            ConfigError::InvalidAppName(name) => joined("invalid app name: ", name, ""),
            ConfigError::DuplicateAppName(name) => joined("duplicate app name: ", name, ""),
            ConfigError::NoApps => "at least one application must be defined".to_owned(),
            ConfigError::EmptyCommand(name) => joined("empty command for application \"", name, "\""),
            ConfigError::InvalidAddress(bind) => joined("invalid address \"", bind, "\""),
            ConfigError::TlsRequired(addr) => joined(
                "TLS required for non-private address \"",
                addr,
                "\"",
            ),
            ConfigError::CertificateNotFound(path) => joined(
                "TLS certificate not found at ",
                path,
                "",
            ),
            ConfigError::KeyNotFound(path) => joined("TLS private key not found at ", path, ""),
            ConfigError::InvalidExtension => "invalid file extension".to_owned(),
        }
    }
}

fn joined(before: &str, middle: &String, after: &str) -> (text: String)
    ensures
        text@ == before@ + middle@ + after@,
        after@.len() == 0 ==> text@ == before@ + middle@,
{
    let mut text = before.to_owned();
    text.append(middle.as_str());
    text.append(after);
    assert(after@.len() == 0 ==> text@ =~= before@ + middle@);
    text
}

/// The format of a file, by its extension.
#[derive(Debug, Clone, Copy, PartialEq, Eq, Structural)]
pub enum FileFormat {
    Toml,
    Json,
}

pub open spec fn format_of(extension: Option<Seq<char>>) -> Option<FileFormat> {
    if extension == Some("toml"@) {
        Some(FileFormat::Toml)
    } else if extension == Some("json"@) {
        Some(FileFormat::Json)
    } else {
        None
    }
}

/// How a file with an application is read. Other files in a directory are
/// passed over; a file that is named on its own is an error.
pub fn include_file(extension: &Option<String>) -> (format: Result<FileFormat, ConfigError>)
    ensures
        match format {
            Ok(format) => format_of(
                crate::server::protocol::text_view(*extension),
            ) == Some(format),
            Err(err) => format_of(crate::server::protocol::text_view(*extension)) is None && err
                is InvalidExtension,
        },
{
    if let Some(extension) = extension {
        if *extension == "toml".to_owned() {
            return Ok(FileFormat::Toml);
        }
        if *extension == "json".to_owned() {
            return Ok(FileFormat::Json);
        }
    }
    Err(ConfigError::InvalidExtension)
}

/// An entry of a directory with applications.
pub struct DirEntry {
    pub is_file: bool,
    pub extension: Option<String>,
}

/// The entries of a directory that hold applications: the files with a
/// format. They are given by their places.
pub fn collect_includes(entries: &Vec<DirEntry>) -> (included: Vec<usize>)
    ensures
        forall|k: int|
            0 <= k < included@.len() ==> (#[trigger] included@[k]) < entries@.len() && is_included(
                entries@[included@[k] as int],
            ),
        forall|j: int, k: int| 0 <= j < k < included@.len() ==> included@[j] < included@[k],
        forall|i: int|
            0 <= i < entries@.len() && is_included(#[trigger] entries@[i]) ==> included@.contains(
                i as usize,
            ),
{
    let mut included: Vec<usize> = Vec::new();
    let mut i: usize = 0;
    while i < entries.len()
        invariant
            i <= entries@.len(),
            forall|k: int|
                0 <= k < included@.len() ==> (#[trigger] included@[k]) < i && is_included(
                    entries@[included@[k] as int],
                ),
            forall|j: int, k: int| 0 <= j < k < included@.len() ==> included@[j] < included@[k],
            forall|j: int|
                0 <= j < i && is_included(#[trigger] entries@[j]) ==> included@.contains(
                    j as usize,
                ),
        decreases entries.len() - i,
    {
        let ghost before = included@;
        if entries[i].is_file && include_file(&entries[i].extension).is_ok() {
            included.push(i);
            proof {
                assert(included@[before.len() as int] == i);
                assert forall|j: int| 0 <= j < i + 1 && is_included(
                    #[trigger] entries@[j],
                ) implies included@.contains(j as usize) by {
                    if j < i {
                        let k = choose|k: int| 0 <= k < before.len() && before[k] == j as usize;
                        assert(included@[k] == j as usize);
                    }
                }
            }
        }
        i += 1;
    }
    included
}

pub open spec fn is_included(entry: DirEntry) -> bool {
    entry.is_file && format_of(crate::server::protocol::text_view(entry.extension)) is Some
}

/// The file that is read if none is given: the one in TOML, if it exists, or
/// else the one in JSON.
pub fn locate_default_config_file(toml_exists: bool, json_exists: bool) -> (path: Option<
    &'static str,
>)
    ensures
        path == if toml_exists {
            Some("/etc/magic-mirror/mmserver.toml")
        } else if json_exists {
            Some("/etc/magic-mirror/mmserver.json")
        } else {
            None
        },
{
    if toml_exists {
        Some("/etc/magic-mirror/mmserver.toml")
    } else if json_exists {
        Some("/etc/magic-mirror/mmserver.json")
    } else {
        None
    }
}

/// Each setting comes from the first file that has it: no setting takes another's
/// place, and none that is set in either is lost.
pub proof fn settings_are_merged_one_by_one(first: ParsedServer, second: ParsedServer)
    ensures
        ({
            let both = merged_server(first, second);
            &&& first.bind is Some ==> both.bind == first.bind
            &&& first.bind is None ==> both.bind == second.bind
            &&& first.bind_systemd is Some ==> both.bind_systemd == first.bind_systemd
            &&& first.bind_systemd is None ==> both.bind_systemd == second.bind_systemd
            &&& first.tls_cert is Some ==> both.tls_cert == first.tls_cert
            &&& first.tls_cert is None ==> both.tls_cert == second.tls_cert
            &&& first.tls_key is Some ==> both.tls_key == first.tls_key
            &&& first.tls_key is None ==> both.tls_key == second.tls_key
            &&& first.worker_threads is Some ==> both.worker_threads == first.worker_threads
            &&& first.worker_threads is None ==> both.worker_threads == second.worker_threads
            &&& first.max_connections is Some ==> both.max_connections == first.max_connections
            &&& first.max_connections is None ==> both.max_connections == second.max_connections
        }),
{
}

/// The same holds of whole files and of the defaults for applications.
pub proof fn files_are_merged_one_by_one(first: ParsedConfig, second: ParsedConfig)
    ensures
        ({
            let both = merged(first, second);
            &&& first.apps is Some ==> both.apps == first.apps
            &&& first.apps is None ==> both.apps == second.apps
            &&& first.include_apps is Some ==> both.include_apps == first.include_apps
            &&& first.include_apps is None ==> both.include_apps == second.include_apps
            &&& first.server is None ==> both.server == second.server
            &&& second.server is None ==> both.server == first.server
            &&& first.server is Some && second.server is Some ==> both.server == Some(
                merged_server(first.server->0, second.server->0),
            )
            &&& first.default_app_settings is None ==> both.default_app_settings
                == second.default_app_settings
            &&& second.default_app_settings is None ==> both.default_app_settings
                == first.default_app_settings
            &&& first.default_app_settings matches Some(a) ==> (second.default_app_settings matches
                Some(b) ==> (both.default_app_settings matches Some(c) && (a.xwayland is Some
                ==> c.xwayland == a.xwayland) && (a.xwayland is None ==> c.xwayland == b.xwayland)
                && (a.force_1x_scale is Some ==> c.force_1x_scale == a.force_1x_scale) && (
            a.force_1x_scale is None ==> c.force_1x_scale == b.force_1x_scale)))
        }),
{
}

/// An application is configured as its file says, and as the defaults say where
/// its file says nothing.
pub proof fn application_is_configured_as_written(
    app: AppConfig,
    parsed: ParsedApp,
    defaults: DefaultAppSettings,
)
    requires
        is_app_for(app, parsed, defaults),
    ensures
        app.name == parsed.name && app.description == parsed.description && app.command
            == parsed.command,
        parsed.environment matches Some(env) ==> app.env@ == env@,
        parsed.environment is None ==> app.env@.len() == 0,
        parsed.xwayland matches Some(on) ==> app.xwayland == on,
        parsed.xwayland is None ==> app.xwayland == defaults.xwayland->0,
        parsed.force_1x_scale matches Some(on) ==> app.force_1x_scale == on,
        parsed.force_1x_scale is None ==> app.force_1x_scale == defaults.force_1x_scale->0,
{
}

/// The server is set up as the file says; without a limit on connections, there
/// is none.
pub proof fn server_is_set_up_as_written(server: ParsedServer)
    ensures
        ({
            let settings = server_settings(server);
            &&& server.bind matches Some(bind) ==> settings.bind == bind
            &&& server.bind_systemd matches Some(on) ==> settings.bind_systemd == on
            &&& settings.tls_cert == server.tls_cert
            &&& settings.tls_key == server.tls_key
            &&& server.worker_threads matches Some(n) ==> settings.worker_threads == n
            &&& server.max_connections == Some(MaxConnections::Infinity)
                ==> settings.max_connections is None
            &&& server.max_connections matches Some(MaxConnections::Value(n))
                ==> settings.max_connections == Some(n)
        }),
{
}

/// All applications count: those of the file, and those that were found
/// elsewhere after them.
pub proof fn no_application_is_left_out(input: ParsedConfig, additional: Seq<ParsedApp>, i: int)
    ensures
        input.apps matches Some(apps) ==> all_apps(input, additional).len() == apps@.len()
            + additional.len() && (0 <= i < apps@.len() ==> all_apps(input, additional)[i]
            == apps@[i]) && (0 <= i < additional.len() ==> all_apps(input, additional)[apps@.len()
            + i] == additional[i]),
        input.apps is None ==> all_apps(input, additional) =~= additional,
{
}

/// A configuration that cannot be used has a flaw, which is named; one that can be
/// used has none.
pub proof fn usable_configuration_has_no_flaw(
    config: Config,
    resolved: Option<ResolvedAddr>,
    cert_exists: bool,
    key_exists: bool,
    err: ConfigError,
)
    requires
        is_flaw(config, resolved, cert_exists, key_exists, err),
    ensures
        !is_usable(config, resolved, cert_exists, key_exists),
        err is NoApps <==> config.apps@.len() == 0,
        err is InvalidAddress ==> resolved is None,
        err is TlsRequired ==> resolved is Some && resolved->0.addr.ip.spec_requires_tls() && (
        config.server.tls_cert is None || config.server.tls_key is None),
        err is CertificateNotFound ==> config.server.tls_cert is Some && !cert_exists,
        err is KeyNotFound ==> config.server.tls_key is Some && !key_exists,
        err matches ConfigError::EmptyCommand(name) ==> exists|i: int|
            0 <= i < config.apps@.len() && (#[trigger] config.apps@[i]).name == name
                && config.apps@[i].command@.len() == 0,
{
    if config.apps@.len() > 0 && exists|i: int| first_empty_command(config.apps@, i) {
        let i = choose|i: int| #[trigger]
            first_empty_command(config.apps@, i) && err == ConfigError::EmptyCommand(
                config.apps@[i].name,
            );
        assert(config.apps@[i].command@.len() == 0);
    }
}

/// Files are read in the format that their extension names.
pub proof fn extension_names_format(extension: Option<Seq<char>>)
    ensures
        format_of(extension) == Some(FileFormat::Toml) <==> extension == Some("toml"@),
        format_of(extension) == Some(FileFormat::Json) <==> extension == Some("json"@),
{
    reveal_strlit("toml");
    reveal_strlit("json");
    assert("toml"@[0] == 't' && "json"@[0] == 'j');
}

/// The default file is the one in TOML, if there is one.
pub proof fn toml_is_preferred(toml_exists: bool, json_exists: bool, path: Option<&'static str>)
    requires
        call_ensures(locate_default_config_file, (toml_exists, json_exists), path),
    ensures
        path is Some <==> toml_exists || json_exists,
        toml_exists ==> path == Some("/etc/magic-mirror/mmserver.toml"),
        !toml_exists && json_exists ==> path == Some("/etc/magic-mirror/mmserver.json"),
{
}

/// Names are lower case: letters first, then digits, hyphens and underscores too;
/// a longer name that begins with a good one is good if what follows is.
pub proof fn names_can_be_extended(name: Seq<char>, next: char)
    requires
        is_app_name(name),
        name.len() < 257,
    ensures
        is_app_name(name.push(next)) <==> 'a' <= next <= 'z' || '0' <= next <= '9' || next == '-'
            || next == '_',
        'a' <= name[0] <= 'z',
{
    let longer = name.push(next);
    assert(longer[name.len() as int] == next);
    assert forall|i: int| 1 <= i < name.len() implies is_lower(#[trigger] longer[i]) || '0'
        <= longer[i] <= '9' || longer[i] == '-' || longer[i] == '_' by {
        assert(longer[i] == name[i]);
    }
}

/// Of a directory, the files in TOML and in JSON are read, and nothing else.
pub proof fn only_configuration_files_are_read(entry: DirEntry)
    ensures
        is_included(entry) <==> entry.is_file && (crate::server::protocol::text_view(
            entry.extension,
        ) == Some("toml"@) || crate::server::protocol::text_view(entry.extension) == Some(
            "json"@,
        )),
{
}

/// At most one application is the first to be rejected.
pub proof fn one_application_is_rejected_first(apps: Seq<ParsedApp>, i: int, j: int)
    requires
        first_rejected(apps, i),
        first_rejected(apps, j),
    ensures
        i == j,
{
}

/// If no application is rejected, each has a name that can be used, and no two
/// have the same.
pub proof fn accepted_names_are_distinct(apps: Seq<ParsedApp>, i: int, j: int)
    requires
        forall|n: int| !first_rejected(apps, n),
        0 <= i < j < apps.len(),
    ensures
        is_app_name(apps[i].name@),
        is_app_name(apps[j].name@),
        apps[i].name@ != apps[j].name@,
{
    lemma_none_rejected(apps, i);
    lemma_none_rejected(apps, j);
}

proof fn lemma_none_rejected(apps: Seq<ParsedApp>, n: int)
    requires
        forall|i: int| !first_rejected(apps, i),
        0 <= n < apps.len(),
    ensures
        is_app_name(apps[n].name@),
        !is_duplicate(apps, n),
    decreases n,
{
    assert forall|j: int| 0 <= j < n implies is_app_name((#[trigger] apps[j]).name@)
        && !is_duplicate(apps, j) by {
        lemma_none_rejected(apps, j);
    }
    assert(!first_rejected(apps, n));
}

} // verus!
