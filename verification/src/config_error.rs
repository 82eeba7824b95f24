//! Error carried out of the configuration loading layers.

use vstd::prelude::*;

verus! {

/// A configuration failure with its message.
#[derive(Debug)]
pub struct ConfigurationError {
    pub msg: String,
}

impl ConfigurationError {
    /// The display text of this error.
    pub fn message(&self) -> (r: String)
        ensures
            r@ == self.msg@,
    {
        self.msg.clone()
    }

    /// Builds an error from borrowed message text.
    pub fn from_text(s: &str) -> (r: Self)
        ensures
            r.msg@ == s@,
    {
        ConfigurationError { msg: String::from_str(s) }
    }
}

impl From<String> for ConfigurationError {
    /// Builds an error from its message.
    fn from(msg: String) -> (r: Self)
        ensures
            r == (ConfigurationError { msg }),
    {
        ConfigurationError { msg }
    }
}

impl vstd::std_specs::convert::FromSpecImpl<String> for ConfigurationError {
    open spec fn obeys_from_spec() -> bool {
        true
    }

    open spec fn from_spec(msg: String) -> ConfigurationError {
        ConfigurationError { msg }
    }
}

} // verus!
