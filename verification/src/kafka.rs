//! The client configuration of rdkafka, as the library builds it.
use rdkafka::config::ClientConfig;
use rdkafka::config::RDKafkaLogLevel;
use vstd::prelude::*;

verus! {

#[verifier::external_type_specification]
#[verifier::external_body]
pub struct ExClientConfig(ClientConfig);

/// The log levels of librdkafka, from the most to the least severe.
#[derive(Debug, Clone, Copy, PartialEq, Eq, Structural)]
pub enum KafkaLogLevel {
    Emerg,
    Alert,
    Critical,
    Error,
    Warning,
    Notice,
    Info,
    Debug,
}

/// The parameters that a `ClientConfig` holds, by name.
pub uninterp spec fn client_params(config: ClientConfig) -> Map<Seq<char>, Seq<char>>;

/// The log level that a `ClientConfig` holds.
pub uninterp spec fn client_log_level(config: ClientConfig) -> KafkaLogLevel;

/// Calls `ClientConfig::new`, which creates a configuration that holds no parameter.
/// Its log level is taken from the global logger, so nothing is stated of it.
#[verifier::external_body]
pub(crate) fn new_client_config() -> (created: ClientConfig)
    ensures
        client_params(created) =~= Map::empty(),
{
    ClientConfig::new()
}

/// Calls `ClientConfig::set`, which stores `value` under `key`, overriding the value that
/// `key` had, and leaves the log level as it was.
#[verifier::external_body]
pub(crate) fn set_client_param(config: &mut ClientConfig, key: &str, value: &str)
    ensures
        client_params(*final(config)) == client_params(*old(config)).insert(key@, value@),
        client_log_level(*final(config)) == client_log_level(*old(config)),
{
    config.set(key, value);
}

/// Calls `ClientConfig::set_log_level`, which sets the log level and leaves the parameters
/// as they were.
#[verifier::external_body]
pub(crate) fn set_client_log_level(config: &mut ClientConfig, level: KafkaLogLevel)
    ensures
        client_params(*final(config)) == client_params(*old(config)),
        client_log_level(*final(config)) == level,
{
    let level = match level {
        KafkaLogLevel::Emerg => RDKafkaLogLevel::Emerg,
        KafkaLogLevel::Alert => RDKafkaLogLevel::Alert,
        KafkaLogLevel::Critical => RDKafkaLogLevel::Critical,
        KafkaLogLevel::Error => RDKafkaLogLevel::Error,
        KafkaLogLevel::Warning => RDKafkaLogLevel::Warning,
        KafkaLogLevel::Notice => RDKafkaLogLevel::Notice,
        KafkaLogLevel::Info => RDKafkaLogLevel::Info,
        KafkaLogLevel::Debug => RDKafkaLogLevel::Debug,
    };
    config.set_log_level(level);
}

} // verus!
