//! The command-line client's side of the control channel: where to find the
//! daemon's socket.
//!
//! Connecting, writing the command and reading the reply are socket I/O and
//! live with the surrounding process.

use vstd::prelude::*;
use vstd::string::StringExecFns;

verus! {

/// Relies on dirs' `runtime_dir`: the user's runtime directory, when the
/// environment defines one.  The result depends on the environment, so
/// nothing is promised of it.
#[verifier::external_body]
fn runtime_dir_path() -> (r: Option<String>)
{
    dirs::runtime_dir().map(|p| p.to_string_lossy().into_owned())
}

/// The daemon's socket path given the runtime directory: a `ndictd.sock`
/// inside it, or the fixed fallback under `/tmp` when there is none.
pub open spec fn spec_socket_path(runtime_dir: Option<Seq<char>>) -> Seq<char> {
    match runtime_dir {
        Some(d) => d + "/ndictd.sock"@,
        None => "/tmp/ndictd.sock"@,
    }
}

/// Builds the socket path from a runtime directory, if one is known.
pub fn socket_path_for(runtime_dir: Option<&str>) -> (r: String)
    ensures
        r@ == spec_socket_path(
            match runtime_dir {
                Some(d) => Some(d@),
                None => None,
            },
        ),
{
    match runtime_dir {
        Some(d) => {
            let mut p = d.to_owned();
            p.append("/ndictd.sock");
            p
        },
        None => String::from_str("/tmp/ndictd.sock"),
    }
}

/// A handle on the daemon's control socket: just its path.  Sending a
/// command over it is the surrounding process's job.
pub struct DaemonClient {
    pub socket_path: String,
}

impl DaemonClient {
    /// A client pointed at the daemon's socket: in the user's runtime
    /// directory when the environment defines one, else the fixed fallback.
    pub fn new() -> (r: Self)
        ensures
            exists|d: Option<Seq<char>>| r.socket_path@ == spec_socket_path(d),
    {
        let rd = runtime_dir_path();
        let socket_path = match &rd {
            Some(d) => socket_path_for(Some(d.as_str())),
            None => socket_path_for(None),
        };
        proof {
            let w: Option<Seq<char>> = match rd {
                Some(d) => Some(d@),
                None => None,
            };
            assert(socket_path@ == spec_socket_path(w));
        }
        DaemonClient { socket_path }
    }
}

} // verus!
