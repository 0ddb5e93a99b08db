//! The daemon's own failures and their messages.
use crate::config::{spec_config_error_message, ConfigError};
use vstd::prelude::*;

verus! {

/// A failure of the daemon's main loop.
#[derive(Debug, Clone, PartialEq, Eq)]
pub enum DaemonError {
    /// An I/O failure, with its reason.
    Io(String),
}

impl DaemonError {
    /// The failure's message.
    pub fn message(&self) -> (r: String)
        ensures
            r@ == (match self {
                DaemonError::Io(e) => "io: "@ + e@,
            }),
    {
        match self {
            DaemonError::Io(e) => {
                let mut m = "io: ".to_owned();
                m.append(e.as_str());
                m
            },
        }
    }
}

/// A failure while handling an administration request.
#[derive(Debug, Clone, PartialEq, Eq)]
pub enum AdminError {
    /// An I/O failure, with its reason.
    Io(String),
    Config(ConfigError),
    Other(String),
}

/// The message of an administration failure.
pub open spec fn spec_admin_error_message(e: AdminError) -> Seq<char> {
    match e {
        AdminError::Io(m) => "IO error: "@ + m@,
        AdminError::Config(c) => "Config error: "@ + spec_config_error_message(c),
        AdminError::Other(m) => m@,
    }
}

impl AdminError {
    /// The failure's message.
    pub fn message(&self) -> (r: String)
        ensures
            r@ == spec_admin_error_message(*self),
    {
        match self {
            AdminError::Io(e) => {
                let mut m = "IO error: ".to_owned();
                m.append(e.as_str());
                m
            },
            AdminError::Config(c) => {
                let mut m = "Config error: ".to_owned();
                m.append(c.message().as_str());
                m
            },
            AdminError::Other(e) => e.clone(),
        }
    }
}

} // verus!
