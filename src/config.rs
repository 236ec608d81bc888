//! Broker configuration: the builder that collects settings from defaults,
//! a configuration file and the environment, and the validation that turns
//! them into a `Config`.
//!
//! Reading files and environment variables, and spawning the store and key
//! manager that a `Config` selects, happen outside this library; here the
//! settings arrive as plain values.
use vstd::prelude::*;
use vstd::string::*;
use crate::keys::{SigningAlgorithm, ManualKeysError};
use crate::limits::LimitConfig;

verus! {

/// The message for a Redis store in a build without Redis support.
pub const REDIS_UNSUPPORTED: &'static str = "Redis storage requested, but this build does not support it.";
/// The message for an SQLite store in a build without SQLite support.
pub const SQLITE_UNSUPPORTED: &'static str = "SQLite storage requested, but this build does not support it.";
/// The message for a configuration that names no store.
pub const NO_STORE: &'static str = "Must specify one of redis_url, sqlite_db or memory_storage";
/// The message for a configuration that names more than one store.
pub const CONFLICTING_STORES: &'static str = "Can only specify one of redis_url, sqlite_db or memory_storage";
/// The message for an SMTP username without a password, or the reverse.
pub const SMTP_CREDENTIALS: &'static str = "only one of smtp username and password specified; provide both or neither";
/// The message for rotating RSA keys without a command that generates them.
pub const NO_RSA_COMMAND: &'static str = "generate_rsa_command is required for rotating RSA keys";
/// The message for a configuration without a public URL.
pub const NO_PUBLIC_URL: &'static str = "no public url configured";
/// The message for a configuration without a sender address.
pub const NO_FROM_ADDRESS: &'static str = "no smtp from address configured";
/// The message for a configuration without an SMTP server.
pub const NO_SMTP_SERVER: &'static str = "no smtp outserver address configured";
/// The origin of Google's identity provider.
pub const GOOGLE_IDP_ORIGIN: &'static str = "https://accounts.google.com";

/// Union of all possible error types seen while parsing.
#[derive(Debug)]
pub enum ConfigError {
    Custom(&'static str),
    Io(String),
    Toml(String),
    ManualKeys(ManualKeysError),
    DomainOverride(String),
}

/// The kind of identity provider a link points to.
#[derive(Clone, Copy, Debug, PartialEq, Eq, Structural)]
pub enum Relation {
    Portier,
    Google,
}

/// A link to an identity provider.
#[derive(Debug)]
pub struct Link {
    pub rel: Relation,
    pub href: String,
}

/// The identity-provider links used for the email addresses of one domain.
/// Where a list holds a domain twice, the later entry is the one that counts.
#[derive(Debug)]
pub struct DomainOverride {
    pub domain: String,
    pub links: Vec<Link>,
}

/// Which store backend to run.
#[derive(Debug)]
pub enum StoreConfig {
    Memory,
}

/// Which key manager to run.
#[derive(Debug)]
pub enum KeyManagerConfig {
    /// Keys read from these files and this inline text.
    Manual { keyfiles: Vec<String>, keytext: Option<String> },
    /// Keys generated on a schedule; RSA keys by running this command.
    Rotating { generate_rsa_command: Vec<String> },
}

/// The validated configuration.
pub struct Config {
    pub listen_ip: String,
    pub listen_port: u16,
    pub public_url: String,
    pub allowed_origins: Option<Vec<String>>,
    pub data_dir: String,

    pub static_ttl: u64,
    pub discovery_ttl: u64,
    pub keys_ttl: u64,
    pub token_ttl: u64,
    pub session_ttl: u64,
    pub cache_ttl: u64,

    pub key_manager: KeyManagerConfig,
    pub signing_algs: Vec<SigningAlgorithm>,

    pub store: StoreConfig,
    pub limit_per_email: LimitConfig,

    pub from_name: String,
    pub from_address: String,
    pub smtp_server: String,
    pub smtp_username: Option<String>,
    pub smtp_password: Option<String>,

    pub google_client_id: Option<String>,
    pub domain_overrides: Vec<DomainOverride>,
}

/// Settings collected so far; durations are in seconds.
pub struct ConfigBuilder {
    pub listen_ip: String,
    pub listen_port: u16,
    pub public_url: Option<String>,
    pub allowed_origins: Option<Vec<String>>,
    pub data_dir: String,
    pub static_ttl: u64,
    pub discovery_ttl: u64,
    pub keys_ttl: u64,
    pub token_ttl: u64,
    pub session_ttl: u64,
    pub cache_ttl: u64,
    pub keyfiles: Vec<String>,
    pub keytext: Option<String>,
    pub signing_algs: Vec<SigningAlgorithm>,
    pub generate_rsa_command: Vec<String>,
    pub redis_url: Option<String>,
    pub sqlite_db: Option<String>,
    pub memory_storage: bool,
    pub from_name: String,
    pub from_address: Option<String>,
    pub smtp_server: Option<String>,
    pub smtp_username: Option<String>,
    pub smtp_password: Option<String>,
    pub limit_per_email: LimitConfig,
    pub google_client_id: Option<String>,
    pub domain_overrides: Vec<DomainOverride>,
}

/// Settings from one source (a configuration file, the environment): each
/// field that is present replaces the builder's.
pub struct ConfigSettings {
    pub listen_ip: Option<String>,
    pub listen_port: Option<u16>,
    pub public_url: Option<String>,
    pub allowed_origins: Option<Vec<String>>,
    pub data_dir: Option<String>,
    pub static_ttl: Option<u64>,
    pub discovery_ttl: Option<u64>,
    pub keys_ttl: Option<u64>,
    pub token_ttl: Option<u64>,
    pub session_ttl: Option<u64>,
    pub cache_ttl: Option<u64>,
    pub keyfiles: Option<Vec<String>>,
    pub keytext: Option<String>,
    pub signing_algs: Option<Vec<SigningAlgorithm>>,
    pub generate_rsa_command: Option<Vec<String>>,
    pub redis_url: Option<String>,
    pub sqlite_db: Option<String>,
    pub memory_storage: Option<bool>,
    pub from_name: Option<String>,
    pub from_address: Option<String>,
    pub smtp_server: Option<String>,
    pub smtp_username: Option<String>,
    pub smtp_password: Option<String>,
    pub limit_per_email: Option<LimitConfig>,
    pub google_client_id: Option<String>,
    pub domain_overrides: Option<Vec<DomainOverride>>,
}

/// The builder after `s` is applied to `b`.
pub open spec fn applied(b: ConfigBuilder, s: ConfigSettings) -> ConfigBuilder {
    ConfigBuilder {
        listen_ip: match s.listen_ip { Some(v) => v, None => b.listen_ip },
        listen_port: match s.listen_port { Some(v) => v, None => b.listen_port },
        public_url: if s.public_url is Some { s.public_url } else { b.public_url },
        allowed_origins: if s.allowed_origins is Some { s.allowed_origins } else { b.allowed_origins },
        data_dir: match s.data_dir { Some(v) => v, None => b.data_dir },
        static_ttl: match s.static_ttl { Some(v) => v, None => b.static_ttl },
        discovery_ttl: match s.discovery_ttl { Some(v) => v, None => b.discovery_ttl },
        keys_ttl: match s.keys_ttl { Some(v) => v, None => b.keys_ttl },
        token_ttl: match s.token_ttl { Some(v) => v, None => b.token_ttl },
        session_ttl: match s.session_ttl { Some(v) => v, None => b.session_ttl },
        cache_ttl: match s.cache_ttl { Some(v) => v, None => b.cache_ttl },
        keyfiles: match s.keyfiles { Some(v) => v, None => b.keyfiles },
        keytext: if s.keytext is Some { s.keytext } else { b.keytext },
        signing_algs: match s.signing_algs { Some(v) => v, None => b.signing_algs },
        generate_rsa_command: match s.generate_rsa_command { Some(v) => v, None => b.generate_rsa_command },
        redis_url: if s.redis_url is Some { s.redis_url } else { b.redis_url },
        sqlite_db: if s.sqlite_db is Some { s.sqlite_db } else { b.sqlite_db },
        memory_storage: match s.memory_storage { Some(v) => v, None => b.memory_storage },
        from_name: match s.from_name { Some(v) => v, None => b.from_name },
        from_address: if s.from_address is Some { s.from_address } else { b.from_address },
        smtp_server: if s.smtp_server is Some { s.smtp_server } else { b.smtp_server },
        smtp_username: if s.smtp_username is Some { s.smtp_username } else { b.smtp_username },
        smtp_password: if s.smtp_password is Some { s.smtp_password } else { b.smtp_password },
        limit_per_email: match s.limit_per_email { Some(v) => v, None => b.limit_per_email },
        google_client_id: if s.google_client_id is Some { s.google_client_id } else { b.google_client_id },
        domain_overrides: match s.domain_overrides { Some(v) => v, None => b.domain_overrides },
    }
}

/// Replaces `target` with the value, if there is one.
fn replace_if_some<T>(target: &mut T, value: Option<T>)
    ensures
        *final(target) == match value {
            Some(v) => v,
            None => *old(target),
        },
{
    if let Some(v) = value {
        *target = v;
    }
}

/// Replaces `target` with the value, if it is set.
fn replace_if_some_option<T>(target: &mut Option<T>, value: Option<T>)
    ensures
        *final(target) == if value is Some {
            value
        } else {
            *old(target)
        },
{
    if value.is_some() {
        *target = value;
    }
}

impl ConfigSettings {
    /// Settings that change nothing.
    pub fn empty() -> (r: ConfigSettings)
        ensures
            forall|b: ConfigBuilder| applied(b, r) == b,
    {
        ConfigSettings {
            listen_ip: None,
            listen_port: None,
            public_url: None,
            allowed_origins: None,
            data_dir: None,
            static_ttl: None,
            discovery_ttl: None,
            keys_ttl: None,
            token_ttl: None,
            session_ttl: None,
            cache_ttl: None,
            keyfiles: None,
            keytext: None,
            signing_algs: None,
            generate_rsa_command: None,
            redis_url: None,
            sqlite_db: None,
            memory_storage: None,
            from_name: None,
            from_address: None,
            smtp_server: None,
            smtp_username: None,
            smtp_password: None,
            limit_per_email: None,
            google_client_id: None,
            domain_overrides: None,
        }
    }
}

impl ConfigBuilder {
    fn apply(&mut self, settings: ConfigSettings)
        ensures
            *final(self) == applied(*old(self), settings),
    {
        let ConfigSettings {
            listen_ip, listen_port, public_url, allowed_origins, data_dir, static_ttl,
            discovery_ttl, keys_ttl, token_ttl, session_ttl, cache_ttl, keyfiles, keytext,
            signing_algs, generate_rsa_command, redis_url, sqlite_db, memory_storage,
            from_name, from_address, smtp_server, smtp_username, smtp_password,
            limit_per_email, google_client_id, domain_overrides,
        } = settings;
        replace_if_some(&mut self.listen_ip, listen_ip);
        replace_if_some(&mut self.listen_port, listen_port);
        replace_if_some_option(&mut self.public_url, public_url);
        replace_if_some_option(&mut self.allowed_origins, allowed_origins);
        replace_if_some(&mut self.data_dir, data_dir);
        replace_if_some(&mut self.static_ttl, static_ttl);
        replace_if_some(&mut self.discovery_ttl, discovery_ttl);
        replace_if_some(&mut self.keys_ttl, keys_ttl);
        replace_if_some(&mut self.token_ttl, token_ttl);
        replace_if_some(&mut self.session_ttl, session_ttl);
        replace_if_some(&mut self.cache_ttl, cache_ttl);
        replace_if_some(&mut self.keyfiles, keyfiles);
        replace_if_some_option(&mut self.keytext, keytext);
        replace_if_some(&mut self.signing_algs, signing_algs);
        replace_if_some(&mut self.generate_rsa_command, generate_rsa_command);
        replace_if_some_option(&mut self.redis_url, redis_url);
        replace_if_some_option(&mut self.sqlite_db, sqlite_db);
        replace_if_some(&mut self.memory_storage, memory_storage);
        replace_if_some(&mut self.from_name, from_name);
        replace_if_some_option(&mut self.from_address, from_address);
        replace_if_some_option(&mut self.smtp_server, smtp_server);
        replace_if_some_option(&mut self.smtp_username, smtp_username);
        replace_if_some_option(&mut self.smtp_password, smtp_password);
        replace_if_some(&mut self.limit_per_email, limit_per_email);
        replace_if_some_option(&mut self.google_client_id, google_client_id);
        replace_if_some(&mut self.domain_overrides, domain_overrides);
    }

    /// Applies the settings read from a configuration file.
    pub fn update_from_file(&mut self, settings: ConfigSettings)
        ensures
            *final(self) == applied(*old(self), settings),
    {
        self.apply(settings);
    }

    /// Applies the settings read from the broker's own environment variables.
    pub fn update_from_broker_env(&mut self, settings: ConfigSettings)
        ensures
            *final(self) == applied(*old(self), settings),
    {
        self.apply(settings);
    }
}

/// The message refusing the store options, if they are refused: exactly one
/// store must be named, and this build runs only the in-memory store.
pub open spec fn store_error(redis: bool, sqlite: bool, memory: bool) -> Option<&'static str> {
    if redis && !sqlite && !memory {
        Some(REDIS_UNSUPPORTED)
    } else if !redis && sqlite && !memory {
        Some(SQLITE_UNSUPPORTED)
    } else if !redis && !sqlite && memory {
        None
    } else if !redis && !sqlite && !memory {
        Some(NO_STORE)
    } else {
        Some(CONFLICTING_STORES)
    }
}

impl StoreConfig {
    /// Picks the store backend from the three mutually exclusive options.
    pub fn from_options(redis_url: Option<String>, sqlite_db: Option<String>, memory_storage: bool) -> (r: Result<StoreConfig, ConfigError>)
        ensures
            r == match store_error(redis_url is Some, sqlite_db is Some, memory_storage) {
                Some(m) => Err::<StoreConfig, ConfigError>(ConfigError::Custom(m)),
                None => Ok::<StoreConfig, ConfigError>(StoreConfig::Memory),
            },
    {
        match (redis_url, sqlite_db, memory_storage) {
            (Some(_), None, false) => Err(ConfigError::Custom(REDIS_UNSUPPORTED)),
            (None, Some(_), false) => Err(ConfigError::Custom(SQLITE_UNSUPPORTED)),
            (None, None, true) => Ok(StoreConfig::Memory),
            (None, None, false) => Err(ConfigError::Custom(NO_STORE)),
            _ => Err(ConfigError::Custom(CONFLICTING_STORES)),
        }
    }
}

/// The keys come from files or inline text rather than from rotation.
pub open spec fn uses_manual_keys(b: ConfigBuilder) -> bool {
    b.keyfiles@.len() > 0 || b.keytext is Some
}

/// The message refusing the builder's settings, if they are refused.
pub open spec fn done_error(b: ConfigBuilder) -> Option<&'static str> {
    if store_error(b.redis_url is Some, b.sqlite_db is Some, b.memory_storage) is Some {
        store_error(b.redis_url is Some, b.sqlite_db is Some, b.memory_storage)
    } else if (b.smtp_username is None) != (b.smtp_password is None) {
        Some(SMTP_CREDENTIALS)
    } else if !uses_manual_keys(b) && b.signing_algs@.contains(SigningAlgorithm::Rs256)
        && b.generate_rsa_command@.len() == 0 {
        Some(NO_RSA_COMMAND)
    } else if b.public_url is None {
        Some(NO_PUBLIC_URL)
    } else if b.from_address is None {
        Some(NO_FROM_ADDRESS)
    } else if b.smtp_server is None {
        Some(NO_SMTP_SERVER)
    } else {
        None
    }
}

/// `o` sends the addresses of `domain` to Google's identity provider alone.
pub open spec fn is_google_override(o: DomainOverride, domain: Seq<char>) -> bool {
    &&& o.domain@ == domain
    &&& o.links@.len() == 1
    &&& o.links@[0].rel == Relation::Google
    &&& o.links@[0].href@ == "https://accounts.google.com"@
}

/// The overrides that a configuration ends up with: with a Google client id,
/// Gmail's two domains go to Google, and then the configured ones follow (and
/// win over them).
pub open spec fn final_overrides(b: ConfigBuilder, s: Seq<DomainOverride>) -> bool {
    if b.google_client_id is Some {
        &&& s.len() == b.domain_overrides@.len() + 2
        &&& is_google_override(s[0], "gmail.com"@)
        &&& is_google_override(s[1], "googlemail.com"@)
        &&& s.subrange(2, s.len() as int) == b.domain_overrides@
    } else {
        s == b.domain_overrides@
    }
}

fn google_override(domain: &str) -> (r: DomainOverride)
    ensures
        is_google_override(r, domain@),
{
    let mut links: Vec<Link> = Vec::new();
    links.push(Link { rel: Relation::Google, href: String::from_str("https://accounts.google.com") });
    DomainOverride { domain: String::from_str(domain), links }
}

/// `n` is `o` with the hosting platform's conventions applied for `env`.
pub open spec fn common_env_applied(o: ConfigBuilder, n: ConfigBuilder, env: CommonEnv) -> bool {
    &&& (match env.port {
        Some(p) => n.listen_ip@ == "0.0.0.0"@ && n.listen_port == p,
        None => n.listen_ip == o.listen_ip && n.listen_port == o.listen_port,
    })
    &&& (match env.heroku_app_name {
        Some(name) => n.public_url is Some && n.public_url->Some_0@
            == "https://"@ + name@ + ".herokuapp.com"@,
        None => n.public_url == o.public_url,
    })
    &&& (n.redis_url == if env.redis_urls@.len() > 0 {
        Some(env.redis_urls@[0])
    } else {
        o.redis_url
    })
    &&& (if env.sendgrid_username is Some && env.sendgrid_password is Some {
        &&& n.smtp_username == env.sendgrid_username
        &&& n.smtp_password == env.sendgrid_password
        &&& n.smtp_server is Some
        &&& n.smtp_server->Some_0@ == "smtp.sendgrid.net:587"@
    } else {
        &&& n.smtp_username == o.smtp_username
        &&& n.smtp_password == o.smtp_password
        &&& n.smtp_server == o.smtp_server
    })
    &&& (n.allowed_origins == o.allowed_origins)
    &&& (n.data_dir == o.data_dir)
    &&& (n.keyfiles == o.keyfiles)
    &&& (n.keytext == o.keytext)
    &&& (n.sqlite_db == o.sqlite_db)
    &&& (n.memory_storage == o.memory_storage)
    &&& (n.from_address == o.from_address)
    &&& (n.google_client_id == o.google_client_id)
    &&& (n.static_ttl == o.static_ttl)
    &&& (n.discovery_ttl == o.discovery_ttl)
    &&& (n.keys_ttl == o.keys_ttl)
    &&& (n.token_ttl == o.token_ttl)
    &&& (n.session_ttl == o.session_ttl)
    &&& (n.cache_ttl == o.cache_ttl)
    &&& (n.signing_algs == o.signing_algs)
    &&& (n.generate_rsa_command == o.generate_rsa_command)
    &&& (n.from_name == o.from_name)
    &&& (n.limit_per_email == o.limit_per_email)
    &&& (n.domain_overrides == o.domain_overrides)
}

/// `c` carries the settings of `b`.
pub open spec fn built_from(b: ConfigBuilder, c: Config) -> bool {
    &&& c.listen_ip == b.listen_ip
    &&& c.listen_port == b.listen_port
    &&& Some(c.public_url) == b.public_url
    &&& c.allowed_origins == b.allowed_origins
    &&& c.data_dir == b.data_dir
    &&& c.static_ttl == b.static_ttl
    &&& c.discovery_ttl == b.discovery_ttl
    &&& c.keys_ttl == b.keys_ttl
    &&& c.token_ttl == b.token_ttl
    &&& c.session_ttl == b.session_ttl
    &&& c.cache_ttl == b.cache_ttl
    &&& c.key_manager == if uses_manual_keys(b) {
        KeyManagerConfig::Manual { keyfiles: b.keyfiles, keytext: b.keytext }
    } else {
        KeyManagerConfig::Rotating { generate_rsa_command: b.generate_rsa_command }
    }
    &&& c.signing_algs == b.signing_algs
    &&& c.store == StoreConfig::Memory
    &&& c.limit_per_email == b.limit_per_email
    &&& c.from_name == b.from_name
    &&& Some(c.from_address) == b.from_address
    &&& Some(c.smtp_server) == b.smtp_server
    &&& c.smtp_username == b.smtp_username
    &&& c.smtp_password == b.smtp_password
    &&& c.google_client_id == b.google_client_id
    &&& final_overrides(b, c.domain_overrides@)
}

impl ConfigBuilder {
    /// The built-in defaults.
    pub fn new() -> (r: ConfigBuilder)
        ensures
            r.listen_ip@ == "127.0.0.1"@,
            r.listen_port == 3333,
            r.public_url is None,
            r.allowed_origins is None,
            r.data_dir@ == Seq::<char>::empty(),
            r.static_ttl == 604_800,
            r.discovery_ttl == 604_800,
            r.keys_ttl == 86_400,
            r.token_ttl == 600,
            r.session_ttl == 900,
            r.cache_ttl == 3600,
            r.keyfiles@.len() == 0,
            r.keytext is None,
            r.signing_algs@ == seq![SigningAlgorithm::Rs256],
            r.generate_rsa_command@.len() == 3,
            r.generate_rsa_command@[0]@ == "openssl"@,
            r.generate_rsa_command@[1]@ == "genrsa"@,
            r.generate_rsa_command@[2]@ == "2048"@,
            r.redis_url is None,
            r.sqlite_db is None,
            !r.memory_storage,
            r.from_name@ == "Portier"@,
            r.from_address is None,
            r.smtp_server is None,
            r.smtp_username is None,
            r.smtp_password is None,
            r.limit_per_email == (LimitConfig { max_count: 5, duration: 60 }),
            r.google_client_id is None,
            r.domain_overrides@.len() == 0,
    {
        let mut signing_algs: Vec<SigningAlgorithm> = Vec::new();
        signing_algs.push(SigningAlgorithm::Rs256);
        let mut generate_rsa_command: Vec<String> = Vec::new();
        generate_rsa_command.push(String::from_str("openssl"));
        generate_rsa_command.push(String::from_str("genrsa"));
        generate_rsa_command.push(String::from_str("2048"));
        ConfigBuilder {
            listen_ip: String::from_str("127.0.0.1"),
            listen_port: 3333,
            public_url: None,
            allowed_origins: None,
            data_dir: String::new(),
            static_ttl: 604_800,
            discovery_ttl: 604_800,
            keys_ttl: 86_400,
            token_ttl: 600,
            session_ttl: 900,
            cache_ttl: 3600,
            keyfiles: Vec::new(),
            keytext: None,
            signing_algs,
            generate_rsa_command,
            redis_url: None,
            sqlite_db: None,
            memory_storage: false,
            from_name: String::from_str("Portier"),
            from_address: None,
            smtp_server: None,
            smtp_username: None,
            smtp_password: None,
            limit_per_email: LimitConfig::per_minute(5),
            google_client_id: None,
            domain_overrides: Vec::new(),
        }
    }

    /// Applies the conventions of common hosting platforms, given the values
    /// of their environment variables.
    pub fn update_from_common_env(&mut self, env: CommonEnv)
        ensures
            common_env_applied(*old(self), *final(self), env),
    {
        let CommonEnv { port, heroku_app_name, mut redis_urls, sendgrid_username, sendgrid_password } = env;
        if let Some(p) = port {
            self.listen_ip = String::from_str("0.0.0.0");
            self.listen_port = p;
        }
        if let Some(name) = heroku_app_name {
            let url = String::from_str("https://").concat(name.as_str()).concat(".herokuapp.com");
            self.public_url = Some(url);
        }
        if redis_urls.len() > 0 {
            self.redis_url = Some(redis_urls.remove(0));
        }
        match (sendgrid_username, sendgrid_password) {
            (Some(user), Some(password)) => {
                self.smtp_username = Some(user);
                self.smtp_password = Some(password);
                self.smtp_server = Some(String::from_str("smtp.sendgrid.net:587"));
            },
            _ => {},
        }
    }

    /// The store backend that the settings select.
    pub fn into_store(self) -> (r: Result<StoreConfig, ConfigError>)
        ensures
            r == match store_error(self.redis_url is Some, self.sqlite_db is Some, self.memory_storage) {
                Some(m) => Err::<StoreConfig, ConfigError>(ConfigError::Custom(m)),
                None => Ok::<StoreConfig, ConfigError>(StoreConfig::Memory),
            },
    {
        StoreConfig::from_options(self.redis_url, self.sqlite_db, self.memory_storage)
    }

    /// Validates the settings and turns them into a `Config`, choosing the
    /// store backend and the key manager.
    pub fn done(self) -> (r: Result<Config, ConfigError>)
        ensures
            match done_error(self) {
                Some(m) => r == Err::<Config, ConfigError>(ConfigError::Custom(m)),
                None => r is Ok,
            },
            r matches Ok(c) ==> built_from(self, c),
    {
        let ghost b = self;
        let ConfigBuilder {
            listen_ip, listen_port, public_url, allowed_origins, data_dir,
            static_ttl, discovery_ttl, keys_ttl, token_ttl, session_ttl, cache_ttl,
            keyfiles, keytext, signing_algs, generate_rsa_command,
            redis_url, sqlite_db, memory_storage,
            from_name, from_address, smtp_server, smtp_username, smtp_password,
            limit_per_email, google_client_id, mut domain_overrides,
        } = self;
        let store = match StoreConfig::from_options(redis_url, sqlite_db, memory_storage) {
            Ok(s) => s,
            Err(e) => return Err(e),
        };
        if smtp_username.is_none() != smtp_password.is_none() {
            return Err(ConfigError::Custom(SMTP_CREDENTIALS));
        }
        let key_manager = if keyfiles.len() > 0 || keytext.is_some() {
            KeyManagerConfig::Manual { keyfiles, keytext }
        } else {
            if contains_rs256(&signing_algs) && generate_rsa_command.len() == 0 {
                return Err(ConfigError::Custom(NO_RSA_COMMAND));
            }
            KeyManagerConfig::Rotating { generate_rsa_command }
        };
        let public_url = match public_url {
            Some(u) => u,
            None => return Err(ConfigError::Custom(NO_PUBLIC_URL)),
        };
        let from_address = match from_address {
            Some(a) => a,
            None => return Err(ConfigError::Custom(NO_FROM_ADDRESS)),
        };
        let smtp_server = match smtp_server {
            Some(a) => a,
            None => return Err(ConfigError::Custom(NO_SMTP_SERVER)),
        };
        let mut overrides: Vec<DomainOverride> = Vec::new();
        if google_client_id.is_some() {
            overrides.push(google_override("gmail.com"));
            overrides.push(google_override("googlemail.com"));
        }
        overrides.append(&mut domain_overrides);
        proof {
            if b.google_client_id is Some {
                assert(overrides@.subrange(2, overrides@.len() as int) =~= b.domain_overrides@);
            } else {
                assert(overrides@ =~= b.domain_overrides@);
            }
        }
        Ok(Config {
            listen_ip,
            listen_port,
            public_url,
            allowed_origins,
            data_dir,
            static_ttl,
            discovery_ttl,
            keys_ttl,
            token_ttl,
            session_ttl,
            cache_ttl,
            key_manager,
            signing_algs,
            store,
            limit_per_email,
            from_name,
            from_address,
            smtp_server,
            smtp_username,
            smtp_password,
            google_client_id,
            domain_overrides: overrides,
        })
    }
}

fn contains_rs256(algs: &Vec<SigningAlgorithm>) -> (r: bool)
    ensures
        r == algs@.contains(SigningAlgorithm::Rs256),
{
    let mut i: usize = 0;
    while i < algs.len()
        invariant
            i <= algs@.len(),
            forall|j: int| 0 <= j < i ==> algs@[j] != SigningAlgorithm::Rs256,
        decreases algs@.len() - i,
    {
        if algs[i] == SigningAlgorithm::Rs256 {
            return true;
        }
        i = i + 1;
    }
    false
}

/// The values of the environment variables that hosting platforms set.
pub struct CommonEnv {
    /// `PORT`, where it is set to a port number.
    pub port: Option<u16>,
    /// `HEROKU_APP_NAME`.
    pub heroku_app_name: Option<String>,
    /// The Redis URLs that are set, in this order of preference:
    /// `REDISTOGO_URL`, `REDISGREEN_URL`, `REDISCLOUD_URL`, `REDIS_URL`,
    /// `OPENREDIS_URL`.
    pub redis_urls: Vec<String>,
    /// `SENDGRID_USERNAME`.
    pub sendgrid_username: Option<String>,
    /// `SENDGRID_PASSWORD`.
    pub sendgrid_password: Option<String>,
}

} // verus!
