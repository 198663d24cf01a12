use vstd::prelude::*;

verus! {

/// Connection protocol of a profile.
#[derive(Debug, Clone, Copy, PartialEq, Eq, Structural)]
pub enum Protocol {
    Rdp,
    Vnc,
    Ssh,
}

impl Protocol {
    /// Default port of the protocol: 3389 for RDP, 5900 for VNC, 22 for SSH.
    pub open spec fn spec_default_port(self) -> u16 {
        match self {
            Protocol::Rdp => 3389,
            Protocol::Vnc => 5900,
            Protocol::Ssh => 22,
        }
    }

    /// Label under which the protocol is stored: "RDP", "VNC" or "SSH".
    pub open spec fn label(self) -> Seq<char> {
        match self {
            Protocol::Rdp => seq!['R', 'D', 'P'],
            Protocol::Vnc => seq!['V', 'N', 'C'],
            Protocol::Ssh => seq!['S', 'S', 'H'],
        }
    }

    pub fn default_port(self) -> (port: u16)
        ensures
            port == self.spec_default_port(),
    {
        match self {
            Protocol::Rdp => 3389,
            Protocol::Vnc => 5900,
            Protocol::Ssh => 22,
        }
    }

    pub fn as_str(self) -> (s: &'static str)
        ensures
            s@ == self.label(),
    {
        match self {
            Protocol::Rdp => {
                proof {
                    reveal_strlit("RDP");
                }
                "RDP"
            },
            Protocol::Vnc => {
                proof {
                    reveal_strlit("VNC");
                }
                "VNC"
            },
            Protocol::Ssh => {
                proof {
                    reveal_strlit("SSH");
                }
                "SSH"
            },
        }
    }
}


/// Colour depth that RDP options take when none is given: 32 bits.
pub fn default_color_depth() -> (depth: u32)
    ensures
        depth == 32,
{
    32
}

/// Default of the flags that are on unless a profile turns them off.
pub fn default_true() -> (flag: bool)
    ensures
        flag,
{
    true
}

/// Compression quality that VNC options take when none is given: 6.
pub fn default_quality() -> (quality: u32)
    ensures
        quality == 6,
{
    6
}

/// Additional RDP parameters of a profile.
#[derive(Debug, Clone)]
pub struct RdpOptions {
    pub width: u32,
    pub height: u32,
    pub color_depth: u32,
    pub domain: String,
    pub redirect_drives: bool,
    pub redirect_printers: bool,
    /// Two-way clipboard: local <-> remote (the cliprdr channel).
    pub clipboard: bool,
    pub clipboard_to_remote: bool,
    pub clipboard_from_remote: bool,
}

impl RdpOptions {
    /// The options of a profile that sets none: the clipboard is on in both directions.
    pub open spec fn is_default(self) -> bool {
        &&& self.width == 0
        &&& self.height == 0
        &&& self.color_depth == 32
        &&& self.domain@ == Seq::<char>::empty()
        &&& !self.redirect_drives
        &&& !self.redirect_printers
        &&& self.clipboard
        &&& self.clipboard_to_remote
        &&& self.clipboard_from_remote
    }
}

impl Default for RdpOptions {
    fn default() -> (o: Self)
        ensures
            o.is_default(),
    {
        RdpOptions {
            width: 0,
            height: 0,
            color_depth: default_color_depth(),
            domain: String::new(),
            redirect_drives: false,
            redirect_printers: false,
            clipboard: true,
            clipboard_to_remote: true,
            clipboard_from_remote: true,
        }
    }
}

/// Additional VNC parameters of a profile.
#[derive(Debug, Clone)]
pub struct VncOptions {
    pub view_only: bool,
    pub compression_quality: u32,
    pub via_ssh_tunnel: bool,
}

impl VncOptions {
    pub open spec fn is_default(self) -> bool {
        &&& !self.view_only
        &&& self.compression_quality == 0
        &&& !self.via_ssh_tunnel
    }
}

impl Default for VncOptions {
    fn default() -> (o: Self)
        ensures
            o.is_default(),
    {
        VncOptions { view_only: false, compression_quality: 0, via_ssh_tunnel: false }
    }
}

/// Additional SSH parameters of a profile.
#[derive(Debug, Clone)]
pub struct SshOptions {
    pub connect_command: String,
    pub use_agent: bool,
    /// Two-step login: authenticate as a local administrator, then run
    /// `su -` in the interactive session and answer its prompt with the
    /// root password.
    pub su_to_root: bool,
}

impl SshOptions {
    pub open spec fn is_default(self) -> bool {
        &&& self.connect_command@ == Seq::<char>::empty()
        &&& !self.use_agent
        &&& !self.su_to_root
    }
}

impl Default for SshOptions {
    fn default() -> (o: Self)
        ensures
            o.is_default(),
    {
        SshOptions { connect_command: String::new(), use_agent: false, su_to_root: false }
    }
}

/// A connection profile as the application works with it: secrets are in
/// clear here and sealed only in the store.
#[derive(Debug, Clone)]
pub struct Profile {
    pub id: i64,
    pub name: String,
    pub protocol: Protocol,
    pub host: String,
    pub port: u16,
    pub username: Option<String>,
    pub password: Option<String>,
    pub ssh_key_path: Option<String>,
    pub ssh_key_passphrase: Option<String>,
    /// Root password for the two-step (su) login.
    pub root_password: Option<String>,
    pub group_id: Option<i64>,
    pub tags: Vec<String>,
    pub icon: Option<String>,
    pub notes: Option<String>,
    pub rdp_options: RdpOptions,
    pub vnc_options: VncOptions,
    pub ssh_options: SshOptions,
    pub created_at: i64,
    pub updated_at: i64,
    pub last_connected_at: Option<i64>,
}

impl Profile {
    /// The two profiles hold the same data (the tag vectors hold the same
    /// tags).
    pub open spec fn same_as(self, other: Profile) -> bool {
        &&& self.id == other.id
        &&& self.name == other.name
        &&& self.protocol == other.protocol
        &&& self.host == other.host
        &&& self.port == other.port
        &&& self.username == other.username
        &&& self.password == other.password
        &&& self.ssh_key_path == other.ssh_key_path
        &&& self.ssh_key_passphrase == other.ssh_key_passphrase
        &&& self.root_password == other.root_password
        &&& self.group_id == other.group_id
        &&& self.tags@ == other.tags@
        &&& self.icon == other.icon
        &&& self.notes == other.notes
        &&& self.rdp_options == other.rdp_options
        &&& self.vnc_options == other.vnc_options
        &&& self.ssh_options == other.ssh_options
        &&& self.created_at == other.created_at
        &&& self.updated_at == other.updated_at
        &&& self.last_connected_at == other.last_connected_at
    }
}

/// The data with which a profile is created or edited.
#[derive(Debug, Clone, Default)]
pub struct NewProfile {
    pub name: String,
    pub protocol: Option<Protocol>,
    pub host: String,
    pub port: u16,
    pub username: Option<String>,
    pub password: Option<String>,
    pub ssh_key_path: Option<String>,
    pub ssh_key_passphrase: Option<String>,
    pub root_password: Option<String>,
    pub group_id: Option<i64>,
    pub tags: Vec<String>,
    pub icon: Option<String>,
    pub notes: Option<String>,
}

/// A group of connections.
#[derive(Debug, Clone)]
pub struct NewGroup {
    pub id: i64,
    pub name: String,
    pub parent_id: Option<i64>,
}

/// An entry of the connection log.
#[derive(Debug, Clone)]
pub struct HistoryEntry {
    pub id: i64,
    pub profile_id: i64,
    pub profile_name: String,
    pub started_at: i64,
    pub ended_at: Option<i64>,
    pub status: String,
    pub error_code: Option<String>,
    pub error_message: Option<String>,
}

} // verus!
