//! Static configuration: where the verification helper lives.

use vstd::prelude::*;

verus! {

/// Paths the agent needs to reach the credential-verification helper:
/// an executable to spawn, and a socket path to probe first.
pub struct SystemConfig {
    helper_path: String,
    socket_path: String,
}

impl SystemConfig {
    /// The helper executable path, as a sequence of characters.
    pub closed spec fn spec_helper_path(self) -> Seq<char> {
        self.helper_path@
    }

    /// The socket path, as a sequence of characters.
    pub closed spec fn spec_socket_path(self) -> Seq<char> {
        self.socket_path@
    }

    /// Builds a configuration from the two paths.
    pub fn new(helper_path: String, socket_path: String) -> (c: Self)
        ensures
            c.spec_helper_path() == helper_path@,
            c.spec_socket_path() == socket_path@,
    {
        SystemConfig { helper_path, socket_path }
    }

    /// The executable started by the spawn transport.
    pub fn get_helper_path(&self) -> (r: &str)
        ensures
            r@ == self.spec_helper_path(),
    {
        self.helper_path.as_str()
    }

    /// The socket probed for a resident helper daemon.
    pub fn get_socket_path(&self) -> (r: &str)
        ensures
            r@ == self.spec_socket_path(),
    {
        self.socket_path.as_str()
    }
}

/// Where the configuration is read from.
#[derive(Clone, Copy, Debug, PartialEq, Eq, Structural)]
pub enum ConfigSource {
    /// The local administrator's file: it outranks everything.
    LocalFile,
    /// The distribution's file.
    DistroFile,
    /// No file found: built-in defaults.
    Defaults,
}

/// Picks the configuration source: the local administrator's file wherever
/// it exists, then the distribution's file, then the defaults.
pub fn choose_config_source(local_exists: bool, distro_exists: bool) -> (s: ConfigSource)
    ensures
        s == (if local_exists {
            ConfigSource::LocalFile
        } else if distro_exists {
            ConfigSource::DistroFile
        } else {
            ConfigSource::Defaults
        }),
{
    if local_exists {
        ConfigSource::LocalFile
    } else if distro_exists {
        ConfigSource::DistroFile
    } else {
        ConfigSource::Defaults
    }
}

impl Default for SystemConfig {
    /// The conventional helper and socket locations.
    fn default() -> (c: Self)
        ensures
            c.spec_helper_path() == "/usr/lib/polkit-1/polkit-agent-helper-1"@,
            c.spec_socket_path() == "/run/polkit/agent-helper.socket"@,
    {
        SystemConfig {
            helper_path: "/usr/lib/polkit-1/polkit-agent-helper-1".to_owned(),
            socket_path: "/run/polkit/agent-helper.socket".to_owned(),
        }
    }
}

} // verus!
