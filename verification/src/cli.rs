//! How the program is asked to run: as a client, a server, or both.

use rand::RngCore;
use vstd::prelude::*;

verus! {

/// The topology that the command line selects.
#[derive(Clone, Copy, PartialEq, Eq, Structural, Debug)]
pub enum CommandLineArguments {
    /// Client and server in one app: this client is the host.
    HostServer { client_id: u64 },
    /// A client app and a server app side by side, joined by channels.
    ServerAndClient { client_id: u64 },
    /// A dedicated server.
    Server,
    /// A client only.
    Client { client_id: u64 },
}

impl CommandLineArguments {
    /// The id of the client that the topology runs, if it runs one.
    pub open spec fn client_id_spec(self) -> Option<u64> {
        match self {
            CommandLineArguments::HostServer { client_id } => Some(client_id),
            CommandLineArguments::ServerAndClient { client_id } => Some(client_id),
            CommandLineArguments::Server => None,
            CommandLineArguments::Client { client_id } => Some(client_id),
        }
    }

    /// The standalone game: a host with the given client id.
    pub fn standalone(client_id: u64) -> (args: CommandLineArguments)
        ensures
            args == (CommandLineArguments::HostServer { client_id }),
    {
        CommandLineArguments::HostServer { client_id }
    }

    pub fn client_id(&self) -> (id: Option<u64>)
        ensures
            id == self.client_id_spec(),
    {
        match self {
            CommandLineArguments::HostServer { client_id } => Some(*client_id),
            CommandLineArguments::ServerAndClient { client_id } => Some(*client_id),
            CommandLineArguments::Server => None,
            CommandLineArguments::Client { client_id } => Some(*client_id),
        }
    }

    /// Whether the topology has a client, and so a client configuration.
    pub fn runs_client(&self) -> (r: bool)
        ensures
            r == !(self is Server),
    {
        match self {
            CommandLineArguments::Server => false,
            _ => true,
        }
    }

    /// Whether the topology has a server, and so a server configuration.
    pub fn runs_server(&self) -> (r: bool)
        ensures
            r == !(self is Client),
    {
        match self {
            CommandLineArguments::Client { .. } => false,
            _ => true,
        }
    }

    /// The number of apps that the topology runs side by side.
    pub fn app_count(&self) -> (n: usize)
        ensures
            n == (if self is ServerAndClient {
                2usize
            } else {
                1usize
            }),
    {
        match self {
            CommandLineArguments::ServerAndClient { .. } => 2,
            _ => 1,
        }
    }
}

impl Default for CommandLineArguments {
    /// The standalone game, under a client id drawn at random: which id is
    /// not said, only that the result is a host.
    fn default() -> (args: CommandLineArguments)
        ensures
            args is HostServer,
    {
        CommandLineArguments::standalone(random_client_id())
    }
}

/// Draws a client id from `rand::thread_rng()` with `RngCore::next_u64`.
/// Nothing is claimed of the number drawn: every `u64` may come back, and
/// two calls may differ. The generator is seeded from the operating system
/// when a thread first uses it, and panics there if the system gives no
/// entropy; no argument of this function has a part in that.
#[verifier::external_body]
fn random_client_id() -> (id: u64) {
    rand::thread_rng().next_u64()
}

} // verus!
