//! Instance configuration.
//!
//! Plain-value settings structures.  Addresses and URLs are held as the
//! text a configuration file carries; the process edge that opens sockets
//! or builds typed URLs converts them there.

use vstd::prelude::*;

verus! {

/// Settings for the postgres database the instance stores its data in.
#[derive(Clone, Debug)]
pub struct DatabaseConfig {
    /// Username to connect to postgres.
    pub user: String,
    /// Password to connect to postgres.
    pub password: String,
    /// Host where postgres is running.
    pub host: String,
    /// Port where postgres can be accessed.
    pub port: i32,
    /// Name of the postgres database.
    pub database: String,
    /// Maximum number of active sql connections.
    pub pool_size: u32,
}

impl Default for DatabaseConfig {
    /// The stock local-postgres configuration.
    fn default() -> (r: DatabaseConfig)
        ensures
            r.user@ == "lemmy"@,
            r.password@ == "password"@,
            r.host@ == "localhost"@,
            r.port == 5432,
            r.database@ == "lemmy"@,
            r.pool_size == 5,
    {
        DatabaseConfig {
            user: "lemmy".to_owned(),
            password: "password".to_owned(),
            host: "localhost".to_owned(),
            port: 5432,
            database: "lemmy".to_owned(),
            pool_size: 5,
        }
    }
}

/// Parameters for the automatic configuration of a new instance, read only
/// at first start.
#[derive(Clone, Debug)]
pub struct SetupConfig {
    /// Username for the admin user.
    pub admin_username: String,
    /// Password for the admin user.  It must be at least 10 characters.
    pub admin_password: String,
    /// Name of the site (can be changed later).
    pub site_name: String,
    /// Email for the admin user (optional, can be set later).
    pub admin_email: Option<String>,
}

impl SetupConfig {
    /// Whether the admin password meets the documented minimum length.
    pub fn admin_password_long_enough(&self) -> (r: bool)
        ensures
            r == (self.admin_password@.len() >= 10),
    {
        self.admin_password.as_str().unicode_len() >= 10
    }
}

impl Default for SetupConfig {
    /// An unfilled setup: every field still to be provided.
    fn default() -> (r: SetupConfig)
        ensures
            r.admin_username@.len() == 0,
            r.admin_password@.len() == 0,
            r.site_name@.len() == 0,
            r.admin_email is None,
    {
        SetupConfig {
            admin_username: String::new(),
            admin_password: String::new(),
            site_name: String::new(),
            admin_email: None,
        }
    }
}

/// Image server configuration.
#[derive(Clone, Debug)]
pub struct PictrsConfig {
    /// Address where the image server is available.
    pub url: String,
    /// A custom image-server API key, required for deleting images.
    pub api_key: Option<String>,
}

impl Default for PictrsConfig {
    /// The stock address of a co-hosted image server, with no API key.
    fn default() -> (r: PictrsConfig)
        ensures
            r.url@ == "http://pictrs:8080"@,
            r.api_key is None,
    {
        PictrsConfig { url: "http://pictrs:8080".to_owned(), api_key: None }
    }
}

/// The instance's settings.
#[derive(Clone, Debug)]
pub struct Settings {
    /// Settings related to the postgres database.
    pub database: DatabaseConfig,
    /// Image server configuration, if image hosting is enabled.
    pub pictrs: Option<PictrsConfig>,
    /// Parameters for automatic configuration of a new instance.
    pub setup: Option<SetupConfig>,
    /// The domain name of the instance.
    pub hostname: String,
    /// Address the instance listens on for inbound requests.
    pub bind: String,
    /// Port the instance listens on for inbound requests.
    pub port: u16,
    /// Whether the site is served over TLS; federation needs it.
    pub tls_enabled: bool,
    /// Where telemetry is exported, if a collector is set up.
    pub opentelemetry_url: Option<String>,
}

impl Default for Settings {
    /// The stock configuration: a local database, a co-hosted image
    /// server, no setup yet, and a placeholder hostname.
    fn default() -> (r: Settings)
        ensures
            r.hostname@ == "unset"@,
            r.bind@ == "0.0.0.0"@,
            r.port == 8536,
            r.tls_enabled == true,
            r.pictrs is Some,
            r.setup is None,
            r.opentelemetry_url is None,
    {
        Settings {
            database: DatabaseConfig::default(),
            pictrs: Some(PictrsConfig::default()),
            setup: None,
            hostname: "unset".to_owned(),
            bind: "0.0.0.0".to_owned(),
            port: 8536,
            tls_enabled: true,
            opentelemetry_url: None,
        }
    }
}

} // verus!
