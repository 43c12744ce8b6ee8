//! The server settings: one configuration, read and replaced as a whole.

use vstd::prelude::*;
use crate::status::Status;
use crate::text::{copy_texts, texts};

verus! {

/// What the server calls itself and who looks after it.
#[derive(Debug)]
pub struct General {
    pub server_name: String,
    pub description: String,
    pub admin_email: String,
    pub timezone: String,
    pub language: String,
    pub maintenance_mode: bool,
}

/// What this part of the settings holds, as mathematical values.
pub struct GeneralView {
    pub server_name: Seq<char>,
    pub description: Seq<char>,
    pub admin_email: Seq<char>,
    pub timezone: Seq<char>,
    pub language: Seq<char>,
    pub maintenance_mode: bool,
}

impl View for General {
    type V = GeneralView;

    open spec fn view(&self) -> GeneralView {
        GeneralView {
            server_name: self.server_name@,
            description: self.description@,
            admin_email: self.admin_email@,
            timezone: self.timezone@,
            language: self.language@,
            maintenance_mode: self.maintenance_mode,
        }
    }
}

impl Clone for General {
    fn clone(&self) -> (r: Self)
        ensures
            r@ == self@,
    {
        General {
            server_name: self.server_name.clone(),
            description: self.description.clone(),
            admin_email: self.admin_email.clone(),
            timezone: self.timezone.clone(),
            language: self.language.clone(),
            maintenance_mode: self.maintenance_mode,
        }
    }
}

/// How the server is reached.
#[derive(Debug)]
pub struct Connection {
    pub host: String,
    pub port: u16,
    pub protocol: String,
    pub ssl_enabled: bool,
    pub api_endpoint: String,
    pub connection_timeout: u16,
    pub retry_attempts: u8,
    pub keep_alive: bool,
}

/// What this part of the settings holds, as mathematical values.
pub struct ConnectionView {
    pub host: Seq<char>,
    pub port: u16,
    pub protocol: Seq<char>,
    pub ssl_enabled: bool,
    pub api_endpoint: Seq<char>,
    pub connection_timeout: u16,
    pub retry_attempts: u8,
    pub keep_alive: bool,
}

impl View for Connection {
    type V = ConnectionView;

    open spec fn view(&self) -> ConnectionView {
        ConnectionView {
            host: self.host@,
            port: self.port,
            protocol: self.protocol@,
            ssl_enabled: self.ssl_enabled,
            api_endpoint: self.api_endpoint@,
            connection_timeout: self.connection_timeout,
            retry_attempts: self.retry_attempts,
            keep_alive: self.keep_alive,
        }
    }
}

impl Clone for Connection {
    fn clone(&self) -> (r: Self)
        ensures
            r@ == self@,
    {
        Connection {
            host: self.host.clone(),
            port: self.port,
            protocol: self.protocol.clone(),
            ssl_enabled: self.ssl_enabled,
            api_endpoint: self.api_endpoint.clone(),
            connection_timeout: self.connection_timeout,
            retry_attempts: self.retry_attempts,
            keep_alive: self.keep_alive,
        }
    }
}

/// Where the data lies and how it is backed up.
#[derive(Debug)]
pub struct Database {
    pub host: String,
    pub port: u16,
    pub name: String,
    pub max_connections: u32,
    pub timeout: u16,
    pub auto_backup: bool,
    pub backup_interval: u16,
}

/// What this part of the settings holds, as mathematical values.
pub struct DatabaseView {
    pub host: Seq<char>,
    pub port: u16,
    pub name: Seq<char>,
    pub max_connections: u32,
    pub timeout: u16,
    pub auto_backup: bool,
    pub backup_interval: u16,
}

impl View for Database {
    type V = DatabaseView;

    open spec fn view(&self) -> DatabaseView {
        DatabaseView {
            host: self.host@,
            port: self.port,
            name: self.name@,
            max_connections: self.max_connections,
            timeout: self.timeout,
            auto_backup: self.auto_backup,
            backup_interval: self.backup_interval,
        }
    }
}

impl Clone for Database {
    fn clone(&self) -> (r: Self)
        ensures
            r@ == self@,
    {
        Database {
            host: self.host.clone(),
            port: self.port,
            name: self.name.clone(),
            max_connections: self.max_connections,
            timeout: self.timeout,
            auto_backup: self.auto_backup,
            backup_interval: self.backup_interval,
        }
    }
}

/// Who gets in, and how.
#[derive(Debug)]
pub struct Security {
    pub enable_ssl: bool,
    pub require_two_factor: bool,
    pub session_timeout: u16,
    pub max_login_attempts: u8,
    pub ip_whitelist: bool,
    pub allowed_ips: Vec<String>,
}

/// What this part of the settings holds, as mathematical values.
pub struct SecurityView {
    pub enable_ssl: bool,
    pub require_two_factor: bool,
    pub session_timeout: u16,
    pub max_login_attempts: u8,
    pub ip_whitelist: bool,
    pub allowed_ips: Seq<Seq<char>>,
}

impl View for Security {
    type V = SecurityView;

    open spec fn view(&self) -> SecurityView {
        SecurityView {
            enable_ssl: self.enable_ssl,
            require_two_factor: self.require_two_factor,
            session_timeout: self.session_timeout,
            max_login_attempts: self.max_login_attempts,
            ip_whitelist: self.ip_whitelist,
            allowed_ips: texts(self.allowed_ips@),
        }
    }
}

impl Clone for Security {
    fn clone(&self) -> (r: Self)
        ensures
            r@ == self@,
    {
        Security {
            enable_ssl: self.enable_ssl,
            require_two_factor: self.require_two_factor,
            session_timeout: self.session_timeout,
            max_login_attempts: self.max_login_attempts,
            ip_whitelist: self.ip_whitelist,
            allowed_ips: copy_texts(&self.allowed_ips),
        }
    }
}

/// The limits the server keeps to.
#[derive(Debug, Clone, Copy, PartialEq, Eq, Structural)]
pub struct Performance {
    pub max_cpu_usage: u8,
    pub max_memory_usage: u8,
    pub cache_enabled: bool,
    pub cache_size: u32,
    pub compression_enabled: bool,
    pub rate_limit_enabled: bool,
    pub max_requests_per_minute: u32,
}

/// What the server sends word of.
#[derive(Debug, Clone, Copy, PartialEq, Eq, Structural)]
pub struct Notifications {
    pub email_notifications: bool,
    pub system_alerts: bool,
    pub user_registration: bool,
    pub error_reports: bool,
    pub backup_reports: bool,
    pub security_events: bool,
}

/// How the programming interface is offered.
#[derive(Debug)]
pub struct Api {
    pub enabled: bool,
    pub version: String,
    pub rate_limit: u32,
    pub require_auth: bool,
    pub allow_cors: bool,
    pub log_requests: bool,
}

/// What this part of the settings holds, as mathematical values.
pub struct ApiView {
    pub enabled: bool,
    pub version: Seq<char>,
    pub rate_limit: u32,
    pub require_auth: bool,
    pub allow_cors: bool,
    pub log_requests: bool,
}

impl View for Api {
    type V = ApiView;

    open spec fn view(&self) -> ApiView {
        ApiView {
            enabled: self.enabled,
            version: self.version@,
            rate_limit: self.rate_limit,
            require_auth: self.require_auth,
            allow_cors: self.allow_cors,
            log_requests: self.log_requests,
        }
    }
}

impl Clone for Api {
    fn clone(&self) -> (r: Self)
        ensures
            r@ == self@,
    {
        Api {
            enabled: self.enabled,
            version: self.version.clone(),
            rate_limit: self.rate_limit,
            require_auth: self.require_auth,
            allow_cors: self.allow_cors,
            log_requests: self.log_requests,
        }
    }
}

/// The whole configuration of the server. Nothing ties its parts together:
/// any value of each part goes with any value of the others.
#[derive(Debug)]
pub struct ServerConfig {
    pub general: General,
    pub connection: Connection,
    pub database: Database,
    pub security: Security,
    pub performance: Performance,
    pub notifications: Notifications,
    pub api: Api,
}

/// What a configuration holds, as mathematical values.
pub struct ServerConfigView {
    pub general: GeneralView,
    pub connection: ConnectionView,
    pub database: DatabaseView,
    pub security: SecurityView,
    pub performance: Performance,
    pub notifications: Notifications,
    pub api: ApiView,
}

impl View for ServerConfig {
    type V = ServerConfigView;

    open spec fn view(&self) -> ServerConfigView {
        ServerConfigView {
            general: self.general@,
            connection: self.connection@,
            database: self.database@,
            security: self.security@,
            performance: self.performance,
            notifications: self.notifications,
            api: self.api@,
        }
    }
}

impl Clone for ServerConfig {
    fn clone(&self) -> (r: Self)
        ensures
            r@ == self@,
    {
        ServerConfig {
            general: self.general.clone(),
            connection: self.connection.clone(),
            database: self.database.clone(),
            security: self.security.clone(),
            performance: self.performance,
            notifications: self.notifications,
            api: self.api.clone(),
        }
    }
}

/// The configuration a server starts with.
pub open spec fn default_config() -> ServerConfigView {
    ServerConfigView {
        general: GeneralView {
            server_name: "Мой Проект"@,
            description: "Описание проекта"@,
            admin_email: "admin@example.com"@,
            timezone: "Europe/Moscow"@,
            language: "ru"@,
            maintenance_mode: false,
        },
        connection: ConnectionView {
            host: "localhost"@,
            port: 3000,
            protocol: "https"@,
            ssl_enabled: true,
            api_endpoint: "/api/v1"@,
            connection_timeout: 30,
            retry_attempts: 3,
            keep_alive: true,
        },
        database: DatabaseView {
            host: "localhost"@,
            port: 5432,
            name: "project_db"@,
            max_connections: 100,
            timeout: 30,
            auto_backup: true,
            backup_interval: 24,
        },
        security: SecurityView {
            enable_ssl: true,
            require_two_factor: false,
            session_timeout: 24,
            max_login_attempts: 5,
            ip_whitelist: false,
            allowed_ips: Seq::<Seq<char>>::empty(),
        },
        performance: Performance {
            max_cpu_usage: 80,
            max_memory_usage: 85,
            cache_enabled: true,
            cache_size: 256,
            compression_enabled: true,
            rate_limit_enabled: true,
            max_requests_per_minute: 1000,
        },
        notifications: Notifications {
            email_notifications: true,
            system_alerts: true,
            user_registration: true,
            error_reports: true,
            backup_reports: true,
            security_events: true,
        },
        api: ApiView {
            enabled: true,
            version: "v2.0"@,
            rate_limit: 100,
            require_auth: true,
            allow_cors: false,
            log_requests: true,
        },
    }
}

/// The settings of the server: a single configuration.
pub struct SettingsStore {
    config: ServerConfig,
}

impl View for SettingsStore {
    type V = ServerConfigView;

    closed spec fn view(&self) -> ServerConfigView {
        self.config@
    }
}

impl SettingsStore {
    /// The settings a server starts with.
    pub fn new_default() -> (store: Self)
        ensures
            store@ == default_config(),
    {
        let config = ServerConfig {
            general: General {
                server_name: "Мой Проект".to_owned(),
                description: "Описание проекта".to_owned(),
                admin_email: "admin@example.com".to_owned(),
                timezone: "Europe/Moscow".to_owned(),
                language: "ru".to_owned(),
                maintenance_mode: false,
            },
            connection: Connection {
                host: "localhost".to_owned(),
                port: 3000,
                protocol: "https".to_owned(),
                ssl_enabled: true,
                api_endpoint: "/api/v1".to_owned(),
                connection_timeout: 30,
                retry_attempts: 3,
                keep_alive: true,
            },
            database: Database {
                host: "localhost".to_owned(),
                port: 5432,
                name: "project_db".to_owned(),
                max_connections: 100,
                timeout: 30,
                auto_backup: true,
                backup_interval: 24,
            },
            security: Security {
                enable_ssl: true,
                require_two_factor: false,
                session_timeout: 24,
                max_login_attempts: 5,
                ip_whitelist: false,
                allowed_ips: Vec::new(),
            },
            performance: Performance {
                max_cpu_usage: 80,
                max_memory_usage: 85,
                cache_enabled: true,
                cache_size: 256,
                compression_enabled: true,
                rate_limit_enabled: true,
                max_requests_per_minute: 1000,
            },
            notifications: Notifications {
                email_notifications: true,
                system_alerts: true,
                user_registration: true,
                error_reports: true,
                backup_reports: true,
                security_events: true,
            },
            api: Api {
                enabled: true,
                version: "v2.0".to_owned(),
                rate_limit: 100,
                require_auth: true,
                allow_cors: false,
                log_requests: true,
            },
        };
        assert(texts(config.security.allowed_ips@) =~= Seq::<Seq<char>>::empty());
        SettingsStore { config }
    }

    /// Settings that hold the given configuration.
    pub fn new(config: ServerConfig) -> (store: Self)
        ensures
            store@ == config@,
    {
        SettingsStore { config }
    }
}

/// A copy of the configuration in force.
pub fn get_settings(store: &SettingsStore) -> (config: ServerConfig)
    ensures
        config@ == store@,
{
    store.config.clone()
}

/// Replaces the whole configuration by the one sent and hands that one back.
/// Nothing of the old configuration stays, and nothing of the new one is
/// checked.
pub fn update_settings(store: &mut SettingsStore, config: ServerConfig) -> (r: (
    Status,
    ServerConfig,
))
    ensures
        final(store)@ == config@,
        r.0 == Status::Success,
        r.1@ == config@,
{
    let copy = config.clone();
    store.config = config;
    (Status::Success, copy)
}

} // verus!
