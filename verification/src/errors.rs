//! Errors of the library.

use vstd::prelude::*;

verus! {

/// Error returned when a configuration is not valid.
#[derive(Clone, Debug)]
pub enum ConfigError {
    /// The configuration breaks the rule described by the message.
    InvalidConfig(String),
}

} // verus!
