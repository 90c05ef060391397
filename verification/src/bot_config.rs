//! The reflector bot's configuration and its defaults.
use vstd::prelude::*;

verus! {

/// The whole configuration.
#[derive(Debug, Clone)]
pub struct BotConfig {
    pub identity: IdentityConfig,
    pub reflector: ReflectorConfig,
    pub network: NetworkConfig,
}

/// Where the bot's identity lives.
#[derive(Debug, Clone)]
pub struct IdentityConfig {
    pub key_dir: String,
    pub null_id: String,
    pub fingerprint: String,
}

/// How the bot reflects messages.
#[derive(Debug, Clone)]
pub struct ReflectorConfig {
    pub prefix: String,
    pub default_ttl: Option<String>,
    pub known_bot_prefixes: Vec<String>,
    pub inherit_ttl: bool,
    pub send_read_receipts: bool,
}

/// How the bot reaches the network.
#[derive(Debug, Clone)]
pub struct NetworkConfig {
    pub bootstrap_url: String,
    pub polling_interval: u64,
}

/// The bootstrap node.
pub fn default_bootstrap() -> (r: String)
    ensures
        r@ == "wss://bootstrap-eu.gnoppix.org/ws"@,
{
    "wss://bootstrap-eu.gnoppix.org/ws".to_string()
}

/// The prefix of reflected messages.
pub fn default_prefix() -> (r: String)
    ensures
        r@ == "🤖 [Reflector Echo]: "@,
{
    "🤖 [Reflector Echo]: ".to_string()
}

/// Prefixes of messages from known bots.
pub fn default_known_bots() -> (r: Vec<String>)
    ensures
        r@.len() == 1,
        r@[0]@ == "🤖 [Reflector Echo]: "@,
{
    let mut v: Vec<String> = Vec::new();
    v.push("🤖 [Reflector Echo]: ".to_string());
    v
}

/// Default of the boolean switches.
pub fn default_true() -> (r: bool)
    ensures
        r,
{
    true
}

/// Seconds between polls.
pub fn default_polling_interval() -> (r: u64)
    ensures
        r == 30,
{
    30
}

impl Default for IdentityConfig {
    fn default() -> (r: Self)
        ensures
            r.key_dir@ == ".add/bot"@,
            r.null_id@ == Seq::<char>::empty(),
            r.fingerprint@ == Seq::<char>::empty(),
    {
        IdentityConfig { key_dir: ".add/bot".to_string(), null_id: String::new(), fingerprint: String::new() }
    }
}

impl Default for ReflectorConfig {
    fn default() -> (r: Self)
        ensures
            r.prefix@ == "🤖 [Reflector Echo]: "@,
            r.default_ttl is None,
            r.known_bot_prefixes@.len() == 1,
            r.known_bot_prefixes@[0]@ == "🤖 [Reflector Echo]: "@,
            r.inherit_ttl,
            r.send_read_receipts,
    {
        ReflectorConfig {
            prefix: default_prefix(),
            default_ttl: None,
            known_bot_prefixes: default_known_bots(),
            inherit_ttl: true,
            send_read_receipts: true,
        }
    }
}

impl Default for NetworkConfig {
    fn default() -> (r: Self)
        ensures
            r.bootstrap_url@ == "wss://bootstrap-eu.gnoppix.org/ws"@,
            r.polling_interval == 30,
    {
        NetworkConfig { bootstrap_url: default_bootstrap(), polling_interval: default_polling_interval() }
    }
}

impl Default for BotConfig {
    fn default() -> (r: Self)
        ensures
            r.identity.key_dir@ == ".add/bot"@,
            r.identity.null_id@ == Seq::<char>::empty(),
            r.identity.fingerprint@ == Seq::<char>::empty(),
            r.reflector.prefix@ == "🤖 [Reflector Echo]: "@,
            r.reflector.default_ttl is None,
            r.reflector.known_bot_prefixes@.len() == 1,
            r.reflector.inherit_ttl,
            r.reflector.send_read_receipts,
            r.network.bootstrap_url@ == "wss://bootstrap-eu.gnoppix.org/ws"@,
            r.network.polling_interval == 30,
    {
        BotConfig { identity: IdentityConfig::default(), reflector: ReflectorConfig::default(), network: NetworkConfig::default() }
    }
}

} // verus!
