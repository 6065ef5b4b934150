//! How a run's inventory tells Ansible to reach each host.

use vstd::prelude::*;
use crate::ansible_inventory::ResolvedInventoryGroup;
use crate::paths;
use crate::paths::{
    static_inventory_ssh_dir, MANAGED_SSH_CLIENT_CERT_FILENAME, MANAGED_SSH_CLIENT_DIR,
    MANAGED_SSH_CLIENT_KEY_FILENAME, MANAGED_SSH_KNOWN_HOSTS_FILENAME,
};
use crate::run_start::ManagedSshHostInfo;
use crate::text;
use crate::text::{concat, concat3};
use crate::textmap::TextMap;

verus! {

pub const HOST_VAR: &'static str = "ansible_host";

pub const PORT_VAR: &'static str = "ansible_port";

pub const USER_VAR: &'static str = "ansible_user";

pub const TIMEOUT_VAR: &'static str = "ansible_timeout";

pub const KEY_FILE_VAR: &'static str = "ansible_ssh_private_key_file";

pub const SSH_ARGS_VAR: &'static str = "ansible_ssh_common_args";

/// How long Ansible waits for a proxy to answer, and for an address that leads nowhere.
pub const CONNECT_TIMEOUT_SECONDS: i32 = 30;

pub const UNREACHABLE_TIMEOUT_SECONDS: i32 = 5;

/// The value of a variable.
#[derive(Debug, Clone, PartialEq, Eq)]
pub enum VarValue {
    Text(String),
    Number(i32),
}

/// A variable of one host.
#[derive(Debug, Clone, PartialEq, Eq)]
pub struct HostVar {
    pub name: String,
    pub value: VarValue,
}

/// The value of a variable, by its text.
pub ghost enum ValueView {
    Text(Seq<char>),
    Number(i32),
}

/// Variables by their texts.
pub open spec fn var_views(vars: Seq<HostVar>) -> Seq<(Seq<char>, ValueView)> {
    vars.map_values(
        |var: HostVar|
            (
                var.name@,
                match var.value {
                    VarValue::Text(value) => ValueView::Text(value@),
                    VarValue::Number(value) => ValueView::Number(value),
                },
            ),
    )
}

/// A file of the run's client identity.
pub open spec fn client_file(name: Seq<char>) -> Seq<char> {
    MANAGED_SSH_CLIENT_DIR@ + "/"@ + name
}

/// The arguments that log in with the run's certificate, and hold a proxy to the host key of its Node.
pub open spec fn proxy_ssh_args(host: Seq<char>) -> Seq<char> {
    "-o CertificateFile="@ + client_file(MANAGED_SSH_CLIENT_CERT_FILENAME@)
        + " -o UserKnownHostsFile="@ + client_file(MANAGED_SSH_KNOWN_HOSTS_FILENAME@)
        + " -o HostKeyAlias="@ + host
}

/// The variables of a Node reached through a proxy.
pub open spec fn proxy_vars(host: Seq<char>, address: ManagedSshHostInfo) -> Seq<
    (Seq<char>, ValueView),
> {
    seq![
        (HOST_VAR@, ValueView::Text(address.pod_ip@)),
        (PORT_VAR@, ValueView::Number(address.port)),
        (USER_VAR@, ValueView::Text("root"@)),
        (
            TIMEOUT_VAR@,
            ValueView::Number(
                if address.unreachable {
                    UNREACHABLE_TIMEOUT_SECONDS
                } else {
                    CONNECT_TIMEOUT_SECONDS
                },
            ),
        ),
        (KEY_FILE_VAR@, ValueView::Text(client_file(MANAGED_SSH_CLIENT_KEY_FILENAME@))),
        (SSH_ARGS_VAR@, ValueView::Text(proxy_ssh_args(host))),
    ]
}

/// The variables of a host of a group: a Node is reached through its proxy, where it has one, and an
/// external host directly.
pub open spec fn connection_vars(
    group: ResolvedInventoryGroup,
    host: Seq<char>,
    addresses: Map<Seq<char>, ManagedSshHostInfo>,
) -> Seq<(Seq<char>, ValueView)> {
    match group {
        ResolvedInventoryGroup::ManagedSsh { .. } => if addresses.dom().contains(host) {
            proxy_vars(host, addresses[host])
        } else {
            Seq::empty()
        },
        ResolvedInventoryGroup::Ssh { static_inventory_name, config, .. } => seq![
            (HOST_VAR@, ValueView::Text(host)),
            (USER_VAR@, ValueView::Text(config.user@)),
            (
                KEY_FILE_VAR@,
                ValueView::Text(paths::ssh_dir_of(static_inventory_name@) + "/ssh-privatekey"@),
            ),
        ],
    }
}

/// The variables that decide how a host is reached.
pub open spec fn reserved_names() -> Seq<Seq<char>> {
    seq![HOST_VAR@, PORT_VAR@, USER_VAR@, TIMEOUT_VAR@, KEY_FILE_VAR@, SSH_ARGS_VAR@]
}

/// The variables that decide how a host is reached, which no inventory may set itself.
pub fn reserved_host_vars() -> (res: Vec<String>)
    ensures
        text::texts(res@) == reserved_names(),
{
    let names = vec![
        HOST_VAR.to_owned(),
        PORT_VAR.to_owned(),
        USER_VAR.to_owned(),
        TIMEOUT_VAR.to_owned(),
        KEY_FILE_VAR.to_owned(),
        SSH_ARGS_VAR.to_owned(),
    ];
    assert(text::texts(names@) =~= reserved_names());
    names
}

fn text_var(name: &str, value: String) -> (res: HostVar)
    ensures
        res.name@ == name@,
        res.value == VarValue::Text(value),
{
    HostVar { name: name.to_owned(), value: VarValue::Text(value) }
}

fn number_var(name: &str, value: i32) -> (res: HostVar)
    ensures
        res.name@ == name@,
        res.value == VarValue::Number(value),
{
    HostVar { name: name.to_owned(), value: VarValue::Number(value) }
}

fn client_path(name: &str) -> (res: String)
    ensures
        res@ == client_file(name@),
{
    concat3(MANAGED_SSH_CLIENT_DIR, "/", name)
}

fn ssh_args(host: &str) -> (res: String)
    ensures
        res@ == proxy_ssh_args(host@),
{
    let mut args = concat(
        "-o CertificateFile=",
        client_path(MANAGED_SSH_CLIENT_CERT_FILENAME).as_str(),
    );
    args.append(" -o UserKnownHostsFile=");
    args.append(client_path(MANAGED_SSH_KNOWN_HOSTS_FILENAME).as_str());
    args.append(" -o HostKeyAlias=");
    args.append(host);
    args
}

/// The variables that tell Ansible how to reach a host of a group.
pub fn host_vars(
    group: &ResolvedInventoryGroup,
    host: &str,
    addresses: &TextMap<ManagedSshHostInfo>,
) -> (res: Vec<HostVar>)
    ensures
        var_views(res@) == connection_vars(*group, host@, addresses@),
{
    let vars = match group {
        ResolvedInventoryGroup::ManagedSsh { .. } => match addresses.get(host) {
            Some(address) => vec![
                text_var(HOST_VAR, address.pod_ip.clone()),
                number_var(PORT_VAR, address.port),
                text_var(USER_VAR, "root".to_owned()),
                number_var(
                    TIMEOUT_VAR,
                    if address.unreachable {
                        UNREACHABLE_TIMEOUT_SECONDS
                    } else {
                        CONNECT_TIMEOUT_SECONDS
                    },
                ),
                text_var(KEY_FILE_VAR, client_path(MANAGED_SSH_CLIENT_KEY_FILENAME)),
                text_var(SSH_ARGS_VAR, ssh_args(host)),
            ],
            None => Vec::new(),
        },
        ResolvedInventoryGroup::Ssh { static_inventory_name, config, .. } => vec![
            text_var(HOST_VAR, host.to_owned()),
            text_var(USER_VAR, config.user.clone()),
            text_var(
                KEY_FILE_VAR,
                concat(
                    static_inventory_ssh_dir(static_inventory_name.as_str()).as_str(),
                    "/ssh-privatekey",
                ),
            ),
        ],
    };
    assert(var_views(vars@) =~= connection_vars(*group, host@, addresses@));
    vars
}

/// Every variable a host is given is reserved, so none an author wrote takes its place.
pub proof fn connection_variables_are_reserved(
    group: ResolvedInventoryGroup,
    host: Seq<char>,
    addresses: Map<Seq<char>, ManagedSshHostInfo>,
    i: int,
)
    requires
        0 <= i < connection_vars(group, host, addresses).len(),
    ensures
        reserved_names().contains(connection_vars(group, host, addresses)[i].0),
{
    let reserved = reserved_names();
    assert(reserved[0] == HOST_VAR@);
    assert(reserved[1] == PORT_VAR@);
    assert(reserved[2] == USER_VAR@);
    assert(reserved[3] == TIMEOUT_VAR@);
    assert(reserved[4] == KEY_FILE_VAR@);
    assert(reserved[5] == SSH_ARGS_VAR@);
}

/// A managed host is reached at its proxy's address and port, as root, with the run's own key and certificate,
/// checked under the host's name; an unreachable one is given up on sooner.
pub proof fn a_managed_host_is_reached_through_its_proxy(
    group: ResolvedInventoryGroup,
    host: Seq<char>,
    addresses: Map<Seq<char>, ManagedSshHostInfo>,
)
    requires
        group is ManagedSsh,
        addresses.contains_key(host),
    ensures
        connection_vars(group, host, addresses).contains(
            ("ansible_host"@, ValueView::Text(addresses[host].pod_ip@)),
        ),
        connection_vars(group, host, addresses).contains(
            ("ansible_port"@, ValueView::Number(addresses[host].port)),
        ),
        connection_vars(group, host, addresses).contains(("ansible_user"@, ValueView::Text("root"@))),
        connection_vars(group, host, addresses).contains(
            (
                "ansible_timeout"@,
                ValueView::Number(
                    if addresses[host].unreachable {
                        5
                    } else {
                        30
                    },
                ),
            ),
        ),
        connection_vars(group, host, addresses).contains(
            (
                "ansible_ssh_private_key_file"@,
                ValueView::Text("/run/ansible-operator/managed-ssh"@ + "/"@ + "id_ed25519"@),
            ),
        ),
        connection_vars(group, host, addresses).contains(
            (
                "ansible_ssh_common_args"@,
                ValueView::Text(
                    "-o CertificateFile="@ + ("/run/ansible-operator/managed-ssh"@ + "/"@
                        + "id_ed25519-cert.pub"@) + " -o UserKnownHostsFile="@ + (
                    "/run/ansible-operator/managed-ssh"@ + "/"@ + "known_hosts"@)
                        + " -o HostKeyAlias="@ + host,
                ),
            ),
        ),
{
    let vars = connection_vars(group, host, addresses);
    assert(vars[0] == ("ansible_host"@, ValueView::Text(addresses[host].pod_ip@)));
    assert(vars[1] == ("ansible_port"@, ValueView::Number(addresses[host].port)));
    assert(vars[2].0 == "ansible_user"@);
    assert(vars[3].0 == "ansible_timeout"@);
    assert(vars[4].0 == "ansible_ssh_private_key_file"@);
    assert(vars[5].0 == "ansible_ssh_common_args"@);
}

/// An external host is reached by its name, as the user its inventory sets, with the inventory's key; a managed
/// host without a proxy is given no address at all.
pub proof fn an_external_host_is_reached_by_its_name(
    group: ResolvedInventoryGroup,
    host: Seq<char>,
    addresses: Map<Seq<char>, ManagedSshHostInfo>,
)
    ensures
        group is Ssh ==> connection_vars(group, host, addresses).contains(
            ("ansible_host"@, ValueView::Text(host)),
        ) && connection_vars(group, host, addresses).contains(
            ("ansible_user"@, ValueView::Text(group->config.user@)),
        ) && connection_vars(group, host, addresses).contains(
            (
                "ansible_ssh_private_key_file"@,
                ValueView::Text(
                    "/run/ansible-operator/ssh/"@ + group->static_inventory_name@
                        + "/ssh-privatekey"@,
                ),
            ),
        ) && connection_vars(group, host, addresses).len() == 3,
        group is ManagedSsh && !addresses.contains_key(host) ==> connection_vars(
            group,
            host,
            addresses,
        ).len() == 0,
{
    if group is Ssh {
        let vars = connection_vars(group, host, addresses);
        assert(vars[0] == ("ansible_host"@, ValueView::Text(host)));
        assert(vars[1] == ("ansible_user"@, ValueView::Text(group->config.user@)));
        assert(vars[2].0 == "ansible_ssh_private_key_file"@);
    }
}

} // verus!
