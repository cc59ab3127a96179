//! Errors of the configuration.
use vstd::prelude::*;
use vstd::string::*;

verus! {

/// What can go wrong when a context of the configuration is turned into a client
/// configuration.
#[derive(Debug)]
pub enum ConfigError {
    /// No context has the given name.
    ContextNotFound(String),
    Unknown,
    InvalidKafkaSecurityProtocol,
    /// An error that a lower layer reported, by its description.
    CustomError(String),
    Message(String),
}

impl ConfigError {
    /// The text that describes the error.
    pub open spec fn description(&self) -> Seq<char> {
        match self {
            ConfigError::ContextNotFound(name) => "context `"@ + name@ + "` could not be found"@,
            ConfigError::Unknown => "unknown config error"@,
            ConfigError::InvalidKafkaSecurityProtocol => "unsupported kafka.security.protocol option"@,
            ConfigError::CustomError(text) => "config error: "@ + text@,
            ConfigError::Message(text) => "config error: "@ + text@,
        }
    }

    /// The texts of the errors: the name of a missing context between back quotes, and the
    /// detail of a message after `config error: `.
    pub proof fn lemma_descriptions(name: String, detail: String)
        ensures
            ConfigError::ContextNotFound(name).description() == "context `"@ + name@
                + "` could not be found"@,
            ConfigError::Unknown.description() == "unknown config error"@,
            ConfigError::InvalidKafkaSecurityProtocol.description()
                == "unsupported kafka.security.protocol option"@,
            ConfigError::CustomError(detail).description() == "config error: "@ + detail@,
            ConfigError::Message(detail).description() == "config error: "@ + detail@,
    {
    }

    /// Describes the error.
    pub fn message(&self) -> (text: String)
        ensures
            text@ == self.description(),
    {
        match self {
            ConfigError::ContextNotFound(name) => {
                let mut text = String::from_str("context `");
                text.append(name.as_str());
                text.append("` could not be found");
                text
            },
            ConfigError::Unknown => String::from_str("unknown config error"),
            ConfigError::InvalidKafkaSecurityProtocol => String::from_str(
                "unsupported kafka.security.protocol option",
            ),
            ConfigError::CustomError(detail) => {
                let mut text = String::from_str("config error: ");
                text.append(detail.as_str());
                text
            },
            ConfigError::Message(detail) => {
                let mut text = String::from_str("config error: ");
                text.append(detail.as_str());
                text
            },
        }
    }
}

} // verus!
