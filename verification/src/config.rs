use vstd::prelude::*;

use rand::distr::{Alphanumeric, SampleString};

verus! {

// ---------------------------------------------------------------------------
// Configuration
//
// The server's settings: bind address, port, shared token and TLS paths.
// Reading and writing the settings file is the runtime's work; the rules
// about the settings — defaults, and that a missing token is generated —
// live here.
// ---------------------------------------------------------------------------

pub const TOKEN_LENGTH: usize = 48;

#[derive(Debug, Clone)]
pub struct TlsSection {
    pub enabled: bool,
    pub cert: String,
    pub key: String,
}

#[derive(Debug, Clone)]
pub struct NotifySection {
    pub webhook_url: String,
}

#[derive(Debug, Clone)]
pub struct ServerSection {
    pub bind: String,
    pub port: u16,
    pub token: String,
    pub tls: TlsSection,
    pub notify: NotifySection,
}

#[derive(Debug, Clone)]
pub struct ReleashConfig {
    pub server: ServerSection,
}

pub fn default_bind() -> (r: String)
    ensures
        r@ == "127.0.0.1"@,
{
    "127.0.0.1".to_owned()
}

pub fn default_port() -> (r: u16)
    ensures
        r == 9700,
{
    9700
}

impl Default for TlsSection {
    fn default() -> (r: Self)
        ensures
            !r.enabled,
            r.cert@ == Seq::<char>::empty(),
            r.key@ == Seq::<char>::empty(),
    {
        TlsSection { enabled: false, cert: String::new(), key: String::new() }
    }
}

impl Default for NotifySection {
    fn default() -> (r: Self)
        ensures
            r.webhook_url@ == Seq::<char>::empty(),
    {
        NotifySection { webhook_url: String::new() }
    }
}

impl Default for ServerSection {
    fn default() -> (r: Self)
        ensures
            r.bind@ == "127.0.0.1"@,
            r.port == 9700,
            r.token@ == Seq::<char>::empty(),
            !r.tls.enabled,
    {
        ServerSection {
            bind: default_bind(),
            port: default_port(),
            token: String::new(),
            tls: TlsSection::default(),
            notify: NotifySection::default(),
        }
    }
}

impl Default for ReleashConfig {
    fn default() -> (r: Self)
        ensures
            r.server.bind@ == "127.0.0.1"@,
            r.server.port == 9700,
            r.server.token@ == Seq::<char>::empty(),
            !r.server.tls.enabled,
    {
        ReleashConfig { server: ServerSection::default() }
    }
}

pub open spec fn spec_is_alnum(c: char) -> bool {
    (48 <= c as int <= 57) || (65 <= c as int <= 90) || (97 <= c as int <= 122)
}

/// Relies on rand's Alphanumeric distribution: a fresh string of exactly the
/// requested length, each character drawn from a-z, A-Z and 0-9.
#[verifier::external_body]
pub fn generate_token() -> (r: String)
    ensures
        r@.len() == TOKEN_LENGTH,
        forall|i: int| 0 <= i < r@.len() ==> spec_is_alnum(#[trigger] r@[i]),
{
    Alphanumeric.sample_string(&mut rand::rng(), TOKEN_LENGTH)
}

/// Fills in a token when the configuration has none.  Says whether the
/// configuration changed and must be written back.
pub fn ensure_token(config: &mut ReleashConfig) -> (changed: bool)
    ensures
        changed == (old(config).server.token@.len() == 0),
        !changed ==> *final(config) == *old(config),
        changed ==> final(config).server.token@.len() == TOKEN_LENGTH,
        changed ==> forall|i: int|
            0 <= i < final(config).server.token@.len() ==> spec_is_alnum(
                #[trigger] final(config).server.token@[i],
            ),
        final(config).server.bind == old(config).server.bind,
        final(config).server.port == old(config).server.port,
        final(config).server.tls == old(config).server.tls,
        final(config).server.notify == old(config).server.notify,
{
    if config.server.token.as_str().is_empty() {
        config.server.token = generate_token();
        true
    } else {
        false
    }
}

/// The settings as loaded, with the path they came from.
pub struct AppConfig {
    config: ReleashConfig,
    config_path: String,
}

impl AppConfig {
    pub closed spec fn config(&self) -> ReleashConfig {
        self.config
    }

    pub closed spec fn path(&self) -> Seq<char> {
        self.config_path@
    }

    pub fn new(config: ReleashConfig, config_path: String) -> (r: AppConfig)
        ensures
            r.config() == config,
            r.path() == config_path@,
    {
        AppConfig { config, config_path }
    }

    /// A copy of the current settings.
    pub fn get_config(&self) -> (r: Result<ReleashConfig, String>)
        ensures
            r matches Ok(c) && c.server.bind@ == self.config().server.bind@ && c.server.port
                == self.config().server.port && c.server.token@ == self.config().server.token@
                && c.server.tls.enabled == self.config().server.tls.enabled && c.server.tls.cert@
                == self.config().server.tls.cert@ && c.server.tls.key@
                == self.config().server.tls.key@,
    {
        let s = &self.config.server;
        Result::Ok(
            ReleashConfig {
                server: ServerSection {
                    bind: crate::strutil::copy_string(&s.bind),
                    port: s.port,
                    token: crate::strutil::copy_string(&s.token),
                    tls: TlsSection {
                        enabled: s.tls.enabled,
                        cert: crate::strutil::copy_string(&s.tls.cert),
                        key: crate::strutil::copy_string(&s.tls.key),
                    },
                    notify: NotifySection {
                        webhook_url: crate::strutil::copy_string(&s.notify.webhook_url),
                    },
                },
            },
        )
    }
}

} // verus!
