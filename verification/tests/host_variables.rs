use ansible_operator::ansible_inventory::{ResolvedHosts, ResolvedInventoryGroup};
use ansible_operator::host_vars::{host_vars, reserved_host_vars, HostVar, VarValue};
use ansible_operator::managed_ssh::{ProxyPodInfo, UNREACHABLE_SENTINEL_IP};
use ansible_operator::resources::{SecretRef, SshConfig};
use ansible_operator::run_start::managed_ssh_addresses;

fn hosts(names: &[&str]) -> ResolvedHosts {
    ResolvedHosts {
        name: "group".into(),
        hosts: names.iter().map(|name| name.to_string()).collect(),
        ..Default::default()
    }
}

fn managed() -> ResolvedInventoryGroup {
    ResolvedInventoryGroup::ManagedSsh {
        hosts: hosts(&["node-a", "node-b"]),
        tolerations: None,
        variables: None,
    }
}

fn external() -> ResolvedInventoryGroup {
    ResolvedInventoryGroup::Ssh {
        hosts: hosts(&["10.0.0.9"]),
        static_inventory_name: "edge".into(),
        config: SshConfig {
            user: "deploy".into(),
            secret_ref: SecretRef { name: "key".into() },
        },
        variables: None,
    }
}

fn text(name: &str, value: &str) -> HostVar {
    HostVar {
        name: name.into(),
        value: VarValue::Text(value.into()),
    }
}

fn number(name: &str, value: i32) -> HostVar {
    HostVar {
        name: name.into(),
        value: VarValue::Number(value),
    }
}

#[test]
fn a_node_is_reached_through_its_proxy() {
    let ready = [ProxyPodInfo {
        host: "node-a".into(),
        pod_ip: "10.1.2.3".into(),
        port: 2222,
    }];
    let addresses = managed_ssh_addresses(&ready, &["node-b".to_string()]);

    assert_eq!(
        host_vars(&managed(), "node-a", &addresses),
        vec![
            text("ansible_host", "10.1.2.3"),
            number("ansible_port", 2222),
            text("ansible_user", "root"),
            number("ansible_timeout", 30),
            text(
                "ansible_ssh_private_key_file",
                "/run/ansible-operator/managed-ssh/id_ed25519"
            ),
            text(
                "ansible_ssh_common_args",
                "-o CertificateFile=/run/ansible-operator/managed-ssh/id_ed25519-cert.pub \
                 -o UserKnownHostsFile=/run/ansible-operator/managed-ssh/known_hosts \
                 -o HostKeyAlias=node-a"
            ),
        ]
    );
    let unreachable = host_vars(&managed(), "node-b", &addresses);
    assert_eq!(unreachable[0], text("ansible_host", UNREACHABLE_SENTINEL_IP));
    assert_eq!(unreachable[3], number("ansible_timeout", 5));
    assert_eq!(host_vars(&managed(), "node-c", &addresses), vec![]);
}

#[test]
fn an_external_host_is_reached_directly() {
    let addresses = managed_ssh_addresses(&[], &["10.0.0.9".to_string()]);
    assert_eq!(
        host_vars(&external(), "10.0.0.9", &addresses),
        vec![
            text("ansible_host", "10.0.0.9"),
            text("ansible_user", "deploy"),
            text(
                "ansible_ssh_private_key_file",
                "/run/ansible-operator/ssh/edge/ssh-privatekey"
            ),
        ]
    );
}

#[test]
fn every_variable_a_host_is_given_is_reserved() {
    let reserved = reserved_host_vars();
    let addresses = managed_ssh_addresses(&[], &["node-a".to_string()]);
    for (group, host) in [(managed(), "node-a"), (external(), "10.0.0.9")] {
        for var in host_vars(&group, host, &addresses) {
            assert!(reserved.contains(&var.name), "{} is not reserved", var.name);
        }
    }
}
