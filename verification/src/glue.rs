//! The operations of the host's real-time data interface, by name and by
//! number.

use vstd::prelude::*;
use vstd::string::StringExecFns;

verus! {

/// An operation the host can ask for.
#[derive(Debug, Clone, Copy, PartialEq, Eq, Structural)]
pub enum Method {
    ServerStart,
    ServerTerminate,
    ConnectData,
    RefreshData,
    DisconnectData,
    Heartbeat,
}

/// The operation of the given name, if there is one.
pub open spec fn method_named(name: Seq<char>) -> Option<Method> {
    if name == "ServerStart"@ {
        Some(Method::ServerStart)
    } else if name == "ServerTerminate"@ {
        Some(Method::ServerTerminate)
    } else if name == "ConnectData"@ {
        Some(Method::ConnectData)
    } else if name == "RefreshData"@ {
        Some(Method::RefreshData)
    } else if name == "DisconnectData"@ {
        Some(Method::DisconnectData)
    } else if name == "Heartbeat"@ {
        Some(Method::Heartbeat)
    } else {
        None
    }
}

/// The number under which the host calls an operation.
pub open spec fn spec_dispatch_id(m: Method) -> i32 {
    match m {
        Method::ServerStart => 0,
        Method::ServerTerminate => 1,
        Method::ConnectData => 2,
        Method::RefreshData => 3,
        Method::DisconnectData => 4,
        Method::Heartbeat => 5,
    }
}

/// The operation with the given number, if there is one.
pub open spec fn method_numbered(id: i32) -> Option<Method> {
    if id == 0 {
        Some(Method::ServerStart)
    } else if id == 1 {
        Some(Method::ServerTerminate)
    } else if id == 2 {
        Some(Method::ConnectData)
    } else if id == 3 {
        Some(Method::RefreshData)
    } else if id == 4 {
        Some(Method::DisconnectData)
    } else if id == 5 {
        Some(Method::Heartbeat)
    } else {
        None
    }
}

/// Looks an operation up by the name the host uses for it.
pub fn method_of_name(name: &str) -> (r: Option<Method>)
    ensures
        r == method_named(name@),
{
    let name = String::from_str(name);
    if name == String::from_str("ServerStart") {
        Some(Method::ServerStart)
    } else if name == String::from_str("ServerTerminate") {
        Some(Method::ServerTerminate)
    } else if name == String::from_str("ConnectData") {
        Some(Method::ConnectData)
    } else if name == String::from_str("RefreshData") {
        Some(Method::RefreshData)
    } else if name == String::from_str("DisconnectData") {
        Some(Method::DisconnectData)
    } else if name == String::from_str("Heartbeat") {
        Some(Method::Heartbeat)
    } else {
        None
    }
}

/// The number under which the host calls `m`.
#[verifier::when_used_as_spec(spec_dispatch_id)]
pub fn dispatch_id(m: Method) -> (r: i32)
    ensures
        r == spec_dispatch_id(m),
        method_numbered(r) == Some(m),
{
    match m {
        Method::ServerStart => 0,
        Method::ServerTerminate => 1,
        Method::ConnectData => 2,
        Method::RefreshData => 3,
        Method::DisconnectData => 4,
        Method::Heartbeat => 5,
    }
}

/// Looks an operation up by its number.
pub fn method_of_id(id: i32) -> (r: Option<Method>)
    ensures
        r == method_numbered(id),
        r matches Some(m) ==> spec_dispatch_id(m) == id,
{
    if id == 0 {
        Some(Method::ServerStart)
    } else if id == 1 {
        Some(Method::ServerTerminate)
    } else if id == 2 {
        Some(Method::ConnectData)
    } else if id == 3 {
        Some(Method::RefreshData)
    } else if id == 4 {
        Some(Method::DisconnectData)
    } else if id == 5 {
        Some(Method::Heartbeat)
    } else {
        None
    }
}

} // verus!
