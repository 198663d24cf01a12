//! Connections to remote hosts and the decisions taken while connecting.
use vstd::prelude::*;
use vstd::string::StringExecFns;

use crate::models::Profile;
use crate::text::{decimal, push_decimal_u64};

pub mod rdp;
pub mod ssh;
pub mod vnc;

verus! {

/// An active connection to a remote host.
pub trait Connection {
    fn profile(&self) -> &Profile;

    /// Establishes the connection; the error text on failure.
    fn connect(&mut self) -> Result<(), String>;

    /// Ends the connection.
    fn disconnect(&mut self);
}

/// The address "host:port" that a connection dials.
pub open spec fn socket_address_of(host: Seq<char>, port: u16) -> Seq<char> {
    host.push(':') + decimal(port as int)
}

/// Formats the address "host:port" that a connection dials.
pub fn socket_address(host: &str, port: u16) -> (a: String)
    ensures
        a@ == socket_address_of(host@, port),
{
    let mut a = String::from_str(host);
    proof {
        reveal_strlit(":");
    }
    a.append(":");
    push_decimal_u64(&mut a, port as u64);
    a
}

/// Copies a profile.
pub fn copy_profile(p: &Profile) -> (r: Profile)
    ensures
        r.same_as(*p),
{
    let mut tags: Vec<String> = Vec::new();
    let mut i: usize = 0;
    while i < p.tags.len()
        invariant
            i <= p.tags@.len(),
            tags@ == p.tags@.subrange(0, i as int),
        decreases p.tags@.len() - i,
    {
        tags.push(p.tags[i].clone());
        i = i + 1;
    }
    assert(p.tags@.subrange(0, p.tags@.len() as int) == p.tags@);
    Profile {
        id: p.id,
        name: p.name.clone(),
        protocol: p.protocol,
        host: p.host.clone(),
        port: p.port,
        username: copy_opt(&p.username),
        password: copy_opt(&p.password),
        ssh_key_path: copy_opt(&p.ssh_key_path),
        ssh_key_passphrase: copy_opt(&p.ssh_key_passphrase),
        root_password: copy_opt(&p.root_password),
        group_id: p.group_id,
        tags,
        icon: copy_opt(&p.icon),
        notes: copy_opt(&p.notes),
        rdp_options: crate::models::RdpOptions {
            width: p.rdp_options.width,
            height: p.rdp_options.height,
            color_depth: p.rdp_options.color_depth,
            domain: p.rdp_options.domain.clone(),
            redirect_drives: p.rdp_options.redirect_drives,
            redirect_printers: p.rdp_options.redirect_printers,
            clipboard: p.rdp_options.clipboard,
            clipboard_to_remote: p.rdp_options.clipboard_to_remote,
            clipboard_from_remote: p.rdp_options.clipboard_from_remote,
        },
        vnc_options: crate::models::VncOptions {
            view_only: p.vnc_options.view_only,
            compression_quality: p.vnc_options.compression_quality,
            via_ssh_tunnel: p.vnc_options.via_ssh_tunnel,
        },
        ssh_options: crate::models::SshOptions {
            connect_command: p.ssh_options.connect_command.clone(),
            use_agent: p.ssh_options.use_agent,
            su_to_root: p.ssh_options.su_to_root,
        },
        created_at: p.created_at,
        updated_at: p.updated_at,
        last_connected_at: p.last_connected_at,
    }
}

fn copy_opt(o: &Option<String>) -> (r: Option<String>)
    ensures
        r == *o,
{
    match o {
        Some(s) => Some(s.clone()),
        None => None,
    }
}

} // verus!
