//! Configuration of the indexer as plain values.

use crate::text::{optional_text, str_eq};
use std::collections::HashMap;
use vstd::prelude::*;

verus! {

/// The provider and the vector database to use where a command names none.
#[derive(Debug)]
pub struct GlobalDefaults {
    pub provider: String,
    pub db: String,
}

impl GlobalDefaults {
    /// The name of the default provider.
    pub fn provider(&self) -> (r: &str)
        ensures
            r@ == self.provider@,
    {
        self.provider.as_str()
    }

    /// The name of the default vector database.
    pub fn db(&self) -> (r: &str)
        ensures
            r@ == self.db@,
    {
        self.db.as_str()
    }
}

/// Access material and model of one embedding provider.
#[derive(Debug)]
pub struct ProviderConfig {
    pub api_key: String,
    pub model: String,
}

impl ProviderConfig {
    /// The key that gives access to the provider.
    pub fn api_key(&self) -> (r: &str)
        ensures
            r@ == self.api_key@,
    {
        self.api_key.as_str()
    }

    /// The name of the embedding model.
    pub fn model(&self) -> (r: &str)
        ensures
            r@ == self.model@,
    {
        self.model.as_str()
    }
}

/// Address and project prefix of one vector database.
#[derive(Debug)]
pub struct VectorDbConfig {
    pub url: String,
    pub key_prefix: String,
}

impl VectorDbConfig {
    /// The address of the database.
    pub fn url(&self) -> (r: &str)
        ensures
            r@ == self.url@,
    {
        self.url.as_str()
    }

    /// The prefix of the project in the database.
    pub fn key_prefix(&self) -> (r: &str)
        ensures
            r@ == self.key_prefix@,
    {
        self.key_prefix.as_str()
    }
}

/// The whole configuration; every part is optional.
#[derive(Debug)]
pub struct AppConfig {
    pub redis_url: Option<String>,
    pub log_level: Option<String>,
    pub global_defaults: Option<GlobalDefaults>,
    pub providers: Option<HashMap<String, ProviderConfig>>,
    pub vector_dbs: Option<HashMap<String, VectorDbConfig>>,
}

impl Default for AppConfig {
    fn default() -> (c: AppConfig)
        ensures
            c.redis_url is None,
            c.log_level is None,
            c.global_defaults is None,
            c.providers is None,
            c.vector_dbs is None,
    {
        AppConfig {
            redis_url: None,
            log_level: None,
            global_defaults: None,
            providers: None,
            vector_dbs: None,
        }
    }
}

/// How much the program logs.
#[derive(Debug, Clone, Copy, PartialEq, Eq, Structural)]
pub enum LogLevel {
    Trace,
    Debug,
    Info,
    Warn,
    Error,
}

/// The level that a configured name selects; an unknown or missing name selects `Info`.
pub open spec fn log_level_spec(name: Option<Seq<char>>) -> LogLevel {
    match name {
        None => LogLevel::Info,
        Some(n) => if n == "debug"@ {
            LogLevel::Debug
        } else if n == "warn"@ {
            LogLevel::Warn
        } else if n == "error"@ {
            LogLevel::Error
        } else if n == "trace"@ {
            LogLevel::Trace
        } else {
            LogLevel::Info
        },
    }
}

impl AppConfig {
    /// The log level that the configuration selects.
    pub fn level(&self) -> (r: LogLevel)
        ensures
            r == log_level_spec(optional_text(self.log_level)),
    {
        match &self.log_level {
            None => LogLevel::Info,
            Some(name) => {
                let n = name.as_str();
                if str_eq(n, "debug") {
                    LogLevel::Debug
                } else if str_eq(n, "warn") {
                    LogLevel::Warn
                } else if str_eq(n, "error") {
                    LogLevel::Error
                } else if str_eq(n, "trace") {
                    LogLevel::Trace
                } else {
                    LogLevel::Info
                }
            },
        }
    }
}

} // verus!
