//! Application-level error type and the port validity rule.

use vstd::prelude::*;

verus! {

/// Errors of the application layers, each carrying a message.
#[derive(Debug, Clone, PartialEq, Eq)]
pub enum AppError {
    System(String),
    Argument(String),
    Config(String),
    Action(String),
}

impl AppError {
    /// The display text of this error, a prefix naming the layer
    /// followed by the message (action errors carry the message alone).
    pub fn message(&self) -> (r: String)
        ensures
            r@ == self.spec_message(),
    {
        match self {
            AppError::System(msg) => String::from_str("system error: ").concat(msg.as_str()),
            AppError::Argument(msg) => String::from_str("argument error: ").concat(msg.as_str()),
            AppError::Config(msg) => String::from_str("configuration file error:").concat(
                msg.as_str(),
            ),
            AppError::Action(msg) => msg.clone(),
        }
    }

    /// The display text of this error.
    pub open spec fn spec_message(&self) -> Seq<char> {
        match self {
            AppError::System(msg) => "system error: "@.add(msg@),
            AppError::Argument(msg) => "argument error: "@.add(msg@),
            AppError::Config(msg) => "configuration file error:"@.add(msg@),
            AppError::Action(msg) => msg@,
        }
    }
}

/// A port this tool accepts: an unprivileged TCP port.
pub open spec fn spec_valid_port(port: u32) -> bool {
    1024 <= port <= 65535
}

/// Whether `port` lies in the accepted range.
pub fn is_valid_port(port: u32) -> (r: bool)
    ensures
        r == spec_valid_port(port),
{
    1024 <= port && port <= 65535
}

/// The message `check_port` rejects an out-of-range `name` with.
pub open spec fn port_error_msg(name: Seq<char>) -> Seq<char> {
    name.add(" must be between 1024 and 65535"@)
}

/// Accepts `port` when it lies in the valid range, else reports which
/// setting (`name`) was out of range.
pub fn check_port(name: &str, port: u32) -> (r: Result<u32, AppError>)
    ensures
        spec_valid_port(port) ==> r == Result::<u32, AppError>::Ok(port),
        !spec_valid_port(port) ==> r is Err && r->Err_0 is Action && r->Err_0->Action_0@
            == port_error_msg(name@),
{
    if !is_valid_port(port) {
        return Err(
            AppError::Action(String::from_str(name).concat(" must be between 1024 and 65535")),
        );
    }
    Ok(port)
}

} // verus!
