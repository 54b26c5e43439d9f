//! Server configuration, as handed over at initialization.

use vstd::prelude::*;
use vstd::string::StringExecFns;

use crate::rules;

verus! {

/// Which checker backend the session talks to. Only the embedded server is
/// implemented; the other modes are declared but not yet supported.
#[derive(Clone, Debug)]
pub enum Server {
    /// Extract and spawn the bundled checker server.
    Embedded {
        /// Where to put the extracted server; a platform data directory by
        /// default.
        location: Option<String>,
        /// Port for the local server; a random free port by default.
        port: Option<u16>,
        /// Extra arguments for invoking the server.
        extra_args: Vec<String>,
    },
    /// Use a hosted checker (not yet supported).
    Online {},
    /// Spawn an installed checker binary (not yet supported).
    Local { executable: String, port: Option<u16>, extra_args: Vec<String> },
}

impl Default for Server {
    /// The default backend: the embedded server, extracted to the default
    /// location, on a random free port.
    fn default() -> (s: Self)
        ensures
            s matches Server::Embedded { location, port, extra_args } && location is None
                && port is None && extra_args@.len() == 0,
    {
        Server::Embedded { location: None, port: None, extra_args: Vec::new() }
    }
}

/// The name of the checker executable a `Local` server runs by default.
pub fn default_executable() -> (r: String)
    ensures
        r@ == "languagetool"@,
{
    "languagetool".to_owned()
}

/// Where session state is persisted.
#[derive(Clone, Debug)]
pub struct State {
    /// Location of the state file, or of a directory to put `state.json` in;
    /// a platform config directory by default.
    pub location: Option<String>,
}

impl Default for State {
    fn default() -> (s: Self)
        ensures
            s.location is None,
    {
        State { location: None }
    }
}

/// The whole configuration of a session.
#[derive(Clone, Debug)]
pub struct Config {
    pub server: Server,
    pub state: State,
    pub parsing: rules::Config,
}

impl Default for Config {
    fn default() -> (c: Self)
        ensures
            c.server matches Server::Embedded { location, port, extra_args } && location is None
                && port is None && extra_args@.len() == 0,
            c.state.location is None,
    {
        Config {
            server: Server::default(),
            state: State::default(),
            parsing: rules::Config::default(),
        }
    }
}

/// The path of the state file for a configured location: a configured
/// directory gets `state.json` appended, a configured file is used as it is,
/// and without a configured location `state.json` goes into the given
/// fallback directory.
pub fn resolve_state_path(location: Option<String>, location_is_dir: bool, fallback_dir: String) -> (
    r: String)
    ensures
        location matches Some(l) ==> {
            &&& !location_is_dir ==> r == l
            &&& location_is_dir ==> r@ == l@ + "/state.json"@
        },
        location is None ==> r@ == fallback_dir@ + "/state.json"@,
{
    match location {
        Some(l) => {
            if location_is_dir {
                let mut r = l;
                r.append("/state.json");
                r
            } else {
                l
            }
        },
        None => {
            let mut r = fallback_dir;
            r.append("/state.json");
            r
        },
    }
}

} // verus!
