//! Deployment settings, fixed at startup.
use vstd::prelude::*;

verus! {

/// Where the column store is and how to log in to it.
pub struct Cassandra<'a> {
    pub nodes: &'a [&'a str],
    pub username: &'a str,
    pub password: &'a str,
    pub port: u16,
    /// The number of shard tables in every keyspace.
    pub total_tables: usize,
}

/// Everything the service is configured with.
pub struct Config<'a> {
    pub settings: Settings<'a>,
    pub logging: Logging<'a>,
    pub cassandra: Cassandra<'a>,
}

/// Where notifications go, where any are configured.
pub struct Logging<'a> {
    pub discord_webhook: Option<&'a str>,
    pub telegram_token: Option<&'a str>,
    pub telegram_chatid: Option<&'a str>,
}

/// How the queue is operated.
pub struct Settings<'a> {
    /// The most items one fetch hands out.
    pub batch_size: usize,
    /// The tokens a caller may present.
    pub api_keys: &'a [&'a str],
    /// Worker threads of the request/response surface.
    pub rest_threads: usize,
}

} // verus!
