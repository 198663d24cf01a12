//! VNC (RFB) connections, optionally tunnelled through SSH.
use vstd::prelude::*;
use vstd::string::StringExecFns;

use crate::models::{Profile, Protocol};
use crate::protocols::copy_profile;

verus! {

/// A VNC connection. When the profile asks for an SSH tunnel, the tunnel is
/// brought up first, to the same host on port 22.
pub struct VncConnection {
    profile: Profile,
    connected: bool,
}

impl VncConnection {
    pub closed spec fn spec_profile(&self) -> Profile {
        self.profile
    }

    pub closed spec fn spec_connected(&self) -> bool {
        self.connected
    }

    pub fn new(profile: Profile) -> (c: Self)
        ensures
            c.spec_profile() == profile,
            !c.spec_connected(),
    {
        VncConnection { profile, connected: false }
    }

    pub fn profile(&self) -> (p: &Profile)
        ensures
            *p == self.spec_profile(),
    {
        &self.profile
    }

    pub fn is_connected(&self) -> (b: bool)
        ensures
            b == self.spec_connected(),
    {
        self.connected
    }

    /// The profile of the SSH tunnel to bring up before connecting, if the
    /// VNC options ask for one: the same profile as SSH on port 22.
    pub fn tunnel_profile(&self) -> (t: Option<Profile>)
        ensures
            self.spec_profile().vnc_options.via_ssh_tunnel ==> (t matches Some(q) && q.same_as(
                Profile { protocol: Protocol::Ssh, port: 22, ..self.spec_profile() },
            )),
            !self.spec_profile().vnc_options.via_ssh_tunnel ==> t is None,
    {
        if self.profile.vnc_options.via_ssh_tunnel {
            let mut p = copy_profile(&self.profile);
            p.protocol = Protocol::Ssh;
            p.port = 22;
            Some(p)
        } else {
            None
        }
    }

    /// Completes the connection once the tunnel step is done: `tunnel` is
    /// the outcome of bringing the tunnel up, `None` when none was needed.
    /// A failed tunnel fails the connection and leaves it unconnected.
    pub fn finish_connect(&mut self, tunnel: Option<Result<(), String>>) -> (r: Result<(), String>)
        ensures
            final(self).spec_profile() == old(self).spec_profile(),
            match tunnel {
                Some(Err(e)) => {
                    &&& r matches Err(m) && m@ == "не удалось поднять SSH-туннель: "@ + e@
                    &&& final(self).spec_connected() == old(self).spec_connected()
                },
                _ => r is Ok && final(self).spec_connected(),
            },
    {
        match tunnel {
            Some(Err(e)) => {
                let mut m = String::from_str("не удалось поднять SSH-туннель: ");
                m.append(e.as_str());
                Err(m)
            },
            _ => {
                self.connected = true;
                Ok(())
            },
        }
    }

    /// Ends the connection.
    pub fn disconnect(&mut self)
        ensures
            final(self).spec_profile() == old(self).spec_profile(),
            !final(self).spec_connected(),
    {
        self.connected = false;
    }
}

} // verus!
