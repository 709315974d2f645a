//! Resolving the socket endpoint paths.
//!
//! The watcher talks to two sibling endpoints: a request/response control
//! socket and a push-only event socket.  Either path may be supplied
//! explicitly; a missing one is derived from the runtime-instance signature
//! found in the process environment, under a fixed directory convention with
//! a fixed suffix per endpoint.  No explicit path and no signature is a fatal
//! configuration error, detected before any connection is attempted.

use vstd::prelude::*;
use vstd::string::StringExecFns;

verus! {

/// A fatal startup configuration error.
#[derive(Clone, Copy, PartialEq, Eq, Structural, Debug)]
pub enum ConfigError {
    /// A socket path was left implicit and no instance signature was given
    /// to derive it from.
    MissingInstance,
}

impl ConfigError {
    /// The message reported before the process terminates.
    pub fn message(&self) -> (m: &'static str)
        ensures
            m@ == "Socket path not specified and HYPRLAND_INSTANCE_SIGNATURE not set"@,
    {
        "Socket path not specified and HYPRLAND_INSTANCE_SIGNATURE not set"
    }
}

/// The environment variable holding the runtime-instance signature.
pub fn instance_env_name() -> (n: &'static str)
    ensures
        n@ == "HYPRLAND_INSTANCE_SIGNATURE"@,
{
    "HYPRLAND_INSTANCE_SIGNATURE"
}

/// The control-socket path derived from an instance signature.
pub open spec fn control_path_for(sig: Seq<char>) -> Seq<char> {
    "/tmp/hypr/"@ + sig + "/.socket.sock"@
}

/// The event-socket path derived from an instance signature.
pub open spec fn events_path_for(sig: Seq<char>) -> Seq<char> {
    "/tmp/hypr/"@ + sig + "/.socket2.sock"@
}

/// The two endpoint paths, fixed for the process lifetime.
pub struct Endpoints {
    /// Path of the request/response control socket.
    pub control: String,
    /// Path of the push-only event socket.
    pub events: String,
}

/// `"/tmp/hypr/" + sig + suffix`.
fn derived_path(sig: &str, suffix: &str) -> (p: String)
    ensures
        p@ == "/tmp/hypr/"@ + sig@ + suffix@,
{
    let mut p: String = "/tmp/hypr/".to_owned();
    p.append(sig);
    p.append(suffix);
    p
}

/// Resolve both endpoint paths from the explicit arguments and the
/// runtime-instance signature, or fail when a path is left implicit with no
/// signature to derive it from.
pub fn resolve_endpoints(control: Option<String>, events: Option<String>, instance: Option<String>)
    -> (r: Result<Endpoints, ConfigError>)
    ensures
        r is Err <==> instance is None && (control is None || events is None),
        match r {
            Ok(e) => {
                &&& match control {
                    Some(c) => e.control@ == c@,
                    None => match instance {
                        Some(sig) => e.control@ == control_path_for(sig@),
                        None => false,
                    },
                }
                &&& match events {
                    Some(v) => e.events@ == v@,
                    None => match instance {
                        Some(sig) => e.events@ == events_path_for(sig@),
                        None => false,
                    },
                }
            },
            Err(err) => err == ConfigError::MissingInstance,
        },
{
    if instance.is_none() && (control.is_none() || events.is_none()) {
        return Err(ConfigError::MissingInstance);
    }
    let control_path: String = match control {
        Some(c) => c,
        None => match &instance {
            Some(sig) => derived_path(sig.as_str(), "/.socket.sock"),
            None => {
                return Err(ConfigError::MissingInstance);
            },
        },
    };
    let events_path: String = match events {
        Some(v) => v,
        None => match &instance {
            Some(sig) => derived_path(sig.as_str(), "/.socket2.sock"),
            None => {
                return Err(ConfigError::MissingInstance);
            },
        },
    };
    Ok(Endpoints { control: control_path, events: events_path })
}

} // verus!
