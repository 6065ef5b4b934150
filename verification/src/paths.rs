//! Where a run's files are found inside its pods.

use vstd::prelude::*;
use crate::text::concat;

verus! {

/// Where the rendered playbook, inventory and callback plugin are mounted.
pub const WORKSPACE_MOUNT_PATH: &'static str = "/run/ansible-operator/workspace";

/// Where the run's client identity for its proxies is mounted.
pub const MANAGED_SSH_CLIENT_DIR: &'static str = "/run/ansible-operator/managed-ssh";

/// Where the credentials of the `StaticInventory` resources are mounted.
pub const STATIC_SSH_DIR: &'static str = "/run/ansible-operator/ssh/";

pub const MANAGED_SSH_CLIENT_KEY_FILENAME: &'static str = "id_ed25519";

pub const MANAGED_SSH_CLIENT_CERT_FILENAME: &'static str = "id_ed25519-cert.pub";

pub const MANAGED_SSH_KNOWN_HOSTS_FILENAME: &'static str = "known_hosts";

/// Where the credentials of one `StaticInventory` are mounted: a directory of its own.
pub open spec fn ssh_dir_of(static_inventory: Seq<char>) -> Seq<char> {
    STATIC_SSH_DIR@ + static_inventory
}

/// Where the credentials of one `StaticInventory` are mounted.
pub fn static_inventory_ssh_dir(static_inventory: &str) -> (res: String)
    ensures
        res@ == ssh_dir_of(static_inventory@),
{
    concat(STATIC_SSH_DIR, static_inventory)
}

} // verus!
