//! The objects a run's node access is made of: proxy pods, their Secrets, the client identity and
//! the policy that shields the proxies.

use vstd::prelude::*;
use vstd::utf8;
use crate::ca;
use crate::ca::{CaError, CertificateAuthority, KeyMaterial};
use crate::execution_evaluator::{ExecutionHash, SecretData};
use crate::labels::{
    COMPONENT, MANAGED_SSH_PROXY_COMPONENT, PLAYBOOKPLAN_HASH, PLAYBOOKPLAN_HOST, PLAYBOOK_COMPONENT,
    RUN_ID,
};
use crate::managed_ssh::{client_cert_secret_name, PROXY_SSH_PORT};
use crate::managed_ssh;
use crate::numerals;
use crate::numerals::decimal;
use crate::paths::{
    MANAGED_SSH_CLIENT_CERT_FILENAME, MANAGED_SSH_CLIENT_KEY_FILENAME,
    MANAGED_SSH_KNOWN_HOSTS_FILENAME,
};
use crate::resources::{LabelMap, ObjectMeta, OwnerReference, Toleration};
use crate::run_identity::RUN_ID_LENGTH;
use crate::search;
use crate::text;
use crate::text::{concat, concat3, optional_is};
use crate::textmap;
use crate::textmap::{no_texts, set_text};
use crate::workloads::{
    Container, EgressRule, IngressRule, NetworkPolicy, NetworkPolicyPeer, NetworkPolicyPort, Pod,
    PodSpec, Secret, SecurityContext, TcpProbe, Volume, VolumeMount, VolumeSource,
};

verus! {

pub const SSHD_CONFIG_MOUNT_PATH: &'static str = "/etc/ansible-operator-sshd";

pub const HOST_KEY_FILENAME: &'static str = "ssh_host_ed25519_key";

pub const HOST_CERT_FILENAME: &'static str = "ssh_host_ed25519_key-cert.pub";

pub const CA_PUB_FILENAME: &'static str = "ca.pub";

pub const ENTER_HOST_SCRIPT_FILENAME: &'static str = "enter-host.sh";

/// The file of principals a proxy accepts: its own run's, and nothing else.
pub const AUTHORIZED_PRINCIPALS_FILENAME: &'static str = "authorized_principals";

/// What an sftp request is recognised by. It is never run as a program; declaring it is what makes
/// sshd hand the request to the forced command.
pub const SFTP_SUBSYSTEM_MARKER: &'static str = "ansible-operator-sftp";

/// Where a proxy pod sees the host's `/proc`.
pub const HOST_PROC_MOUNT_PATH: &'static str = "/host/proc";

/// The taints a Node that is not ready carries.
pub const NODE_NOT_READY_TAINT: &'static str = "node.kubernetes.io/not-ready";

pub const NODE_UNREACHABLE_TAINT: &'static str = "node.kubernetes.io/unreachable";

/// The label a Node's own name stands under.
pub const HOSTNAME_LABEL: &'static str = "kubernetes.io/hostname";

/// The label a namespace's own name stands under.
pub const NAMESPACE_NAME_LABEL: &'static str = "kubernetes.io/metadata.name";

// --- tolerations -----------------------------------------------------------------------------

/// A toleration by its texts: key, operator, value, effect and seconds.
pub open spec fn toleration_of(t: Toleration) -> (
    Option<Seq<char>>,
    Option<Seq<char>>,
    Option<Seq<char>>,
    Option<Seq<char>>,
    Option<i64>,
) {
    (
        text::text_of(t.key),
        text::text_of(t.operator),
        text::text_of(t.value),
        text::text_of(t.effect),
        t.toleration_seconds,
    )
}

/// Whether one of the tolerations is about a taint.
pub open spec fn tolerates_key(tolerations: Seq<Toleration>, key: Seq<char>) -> bool {
    exists|i: int|
        0 <= i < tolerations.len() && text::text_of((#[trigger] tolerations[i]).key) == Some(key)
}

/// Whether a toleration accepts a taint with any effect, for as long as it lasts.
pub open spec fn tolerates_forever(t: Toleration, key: Seq<char>) -> bool {
    toleration_of(t) == (
        Some(key),
        Some("Exists"@),
        None::<Seq<char>>,
        None::<Seq<char>>,
        None::<i64>,
    )
}

/// The user's tolerations, then one for each taint of a Node that is not ready which the user's do
/// not speak of.
pub open spec fn merged_with_defaults(user: Seq<Toleration>, merged: Seq<Toleration>) -> bool {
    let adds_first = !tolerates_key(user, NODE_NOT_READY_TAINT@);
    let adds_second = !tolerates_key(user, NODE_UNREACHABLE_TAINT@);
    let n = user.len() as int;
    &&& merged.len() == n + (if adds_first {
        1int
    } else {
        0
    }) + (if adds_second {
        1int
    } else {
        0
    })
    &&& merged.take(n) == user
    &&& adds_first ==> tolerates_forever(merged[n], NODE_NOT_READY_TAINT@)
    &&& adds_second ==> tolerates_forever(merged.last(), NODE_UNREACHABLE_TAINT@)
}

fn names_taint(tolerations: &[Toleration], key: &str) -> (res: bool)
    ensures
        res == tolerates_key(tolerations@, key@),
{
    let mut i: usize = 0;
    while i < tolerations.len()
        invariant
            i <= tolerations@.len(),
            forall|j: int|
                0 <= j < i ==> text::text_of((#[trigger] tolerations@[j]).key) != Some(key@),
        decreases tolerations.len() - i,
    {
        if optional_is(&tolerations[i].key, key) {
            return true;
        }
        i = i + 1;
    }
    false
}

fn tolerate(key: &str) -> (res: Toleration)
    ensures
        tolerates_forever(res, key@),
{
    Toleration {
        key: Some(key.to_owned()),
        operator: Some("Exists".to_owned()),
        value: None,
        effect: None,
        toleration_seconds: None,
    }
}

/// What a user's tolerations are, if any.
pub open spec fn user_tolerations(user: Option<&[Toleration]>) -> Seq<Toleration> {
    match user {
        Some(user) => user@,
        None => Seq::empty(),
    }
}

/// The tolerations of a proxy pod: the user's, and the taints of a Node that is not ready where the
/// user's do not speak of them.
pub fn merge_default_tolerations(user: Option<&[Toleration]>) -> (res: Vec<Toleration>)
    ensures
        merged_with_defaults(user_tolerations(user), res@),
{
    let mut merged: Vec<Toleration> = Vec::new();
    if let Some(user) = user {
        let mut i: usize = 0;
        while i < user.len()
            invariant
                i <= user@.len(),
                merged@ == user@.take(i as int),
            decreases user.len() - i,
        {
            merged.push(user[i].copy());
            i = i + 1;
        }
        assert(merged@ =~= user@);
    }
    let ghost own = merged@;
    assert(own =~= user_tolerations(user));
    let first = names_taint(&merged, NODE_NOT_READY_TAINT);
    let second = names_taint(&merged, NODE_UNREACHABLE_TAINT);
    if !first {
        merged.push(tolerate(NODE_NOT_READY_TAINT));
    }
    if !second {
        merged.push(tolerate(NODE_UNREACHABLE_TAINT));
    }
    assert(merged@.take(own.len() as int) =~= own);
    merged
}

/// Every proxy pod can be scheduled onto a Node that is not ready, and the user's tolerations are
/// kept: both taints are spoken of in what results.
pub proof fn proxies_tolerate_unready_nodes(user: Seq<Toleration>, merged: Seq<Toleration>)
    requires
        merged_with_defaults(user, merged),
    ensures
        tolerates_key(merged, NODE_NOT_READY_TAINT@),
        tolerates_key(merged, NODE_UNREACHABLE_TAINT@),
        merged.take(user.len() as int) == user,
{
    let n = user.len() as int;
    assert forall|key: Seq<char>| tolerates_key(user, key) implies tolerates_key(merged, key) by {
        let i = choose|i: int|
            0 <= i < user.len() && text::text_of((#[trigger] user[i]).key) == Some(key);
        assert(merged[i] == merged.take(n)[i]);
    }
    if !tolerates_key(user, NODE_NOT_READY_TAINT@) {
        assert(text::text_of(merged[n].key) == Some(NODE_NOT_READY_TAINT@));
    }
    if !tolerates_key(user, NODE_UNREACHABLE_TAINT@) {
        assert(text::text_of(merged[merged.len() - 1].key) == Some(NODE_UNREACHABLE_TAINT@));
    }
}

// --- labels ----------------------------------------------------------------------------------

/// The labels of a proxy's objects.
pub open spec fn proxy_labels(hash: ExecutionHash, run_id: Seq<char>, host: Seq<char>) -> Map<
    Seq<char>,
    Seq<char>,
> {
    Map::<Seq<char>, Seq<char>>::empty().insert(
        PLAYBOOKPLAN_HASH@,
        numerals::numeral(hash.0 as nat, 16),
    ).insert(RUN_ID@, run_id).insert(PLAYBOOKPLAN_HOST@, host).insert(
        COMPONENT@,
        MANAGED_SSH_PROXY_COMPONENT@,
    )
}

/// The labels of a proxy's objects.
pub fn run_labels(execution_hash: &ExecutionHash, run_id: &str, host: &str) -> (res: LabelMap)
    ensures
        textmap::label_texts(res@) == proxy_labels(*execution_hash, run_id@, host@),
{
    let mut labels = attempt_labels(execution_hash, run_id);
    set_text(&mut labels, PLAYBOOKPLAN_HOST, host);
    set_text(&mut labels, COMPONENT, MANAGED_SSH_PROXY_COMPONENT);
    labels
}

/// The labels that identify an attempt.
pub open spec fn attempt_label_texts(hash: ExecutionHash, run_id: Seq<char>) -> Map<
    Seq<char>,
    Seq<char>,
> {
    Map::<Seq<char>, Seq<char>>::empty().insert(
        PLAYBOOKPLAN_HASH@,
        numerals::numeral(hash.0 as nat, 16),
    ).insert(RUN_ID@, run_id)
}

fn attempt_labels(execution_hash: &ExecutionHash, run_id: &str) -> (res: LabelMap)
    ensures
        textmap::label_texts(res@) == attempt_label_texts(*execution_hash, run_id@),
{
    let mut labels = no_texts();
    let hash_text = execution_hash.to_text();
    set_text(&mut labels, PLAYBOOKPLAN_HASH, hash_text.as_str());
    set_text(&mut labels, RUN_ID, run_id);
    labels
}

/// Every label selector of a run's cleanup matches its proxies.
pub proof fn proxies_are_swept(hash: ExecutionHash, run_id: Seq<char>, host: Seq<char>)
    ensures
        managed_ssh::swept(proxy_labels(hash, run_id, host), hash, run_id),
{
    crate::labels::labels_are_distinct();
}

/// Metadata of a new object with a name and labels, and nothing else.
pub open spec fn plain_metadata(
    metadata: ObjectMeta,
    name: Seq<char>,
    labels: Map<Seq<char>, Seq<char>>,
) -> bool {
    &&& text::text_of(metadata.name) == Some(name)
    &&& textmap::label_texts(metadata.labels@) == labels
    &&& metadata.namespace is None
    &&& metadata.unstamped()
    &&& metadata.resource_version is None
    &&& metadata.annotations@ == Map::<Seq<char>, String>::empty()
    &&& metadata.owner_references@ == Seq::<OwnerReference>::empty()
}

fn new_metadata(name: &str, labels: LabelMap) -> (res: ObjectMeta)
    ensures
        plain_metadata(res, name@, textmap::label_texts(labels@)),
{
    let mut metadata = ObjectMeta::default();
    metadata.name = Some(name.to_owned());
    metadata.labels = labels;
    metadata
}

// --- what sshd reads -------------------------------------------------------------------------

/// A file of the sshd configuration, where the proxy sees it.
pub open spec fn config_path(file: Seq<char>) -> Seq<char> {
    SSHD_CONFIG_MOUNT_PATH@ + "/"@ + file
}

fn config_file(file: &str) -> (res: String)
    ensures
        res@ == config_path(file@),
{
    concat3(SSHD_CONFIG_MOUNT_PATH, "/", file)
}

/// One directive that points at a file of the configuration.
pub open spec fn file_directive(keyword: Seq<char>, file: Seq<char>) -> Seq<char> {
    keyword + config_path(file) + "\n"@
}

fn push_file_directive(config: &mut String, keyword: &str, file: &str)
    ensures
        final(config)@ == old(config)@ + file_directive(keyword@, file@),
{
    let path = config_file(file);
    let line = concat3(keyword, path.as_str(), "\n");
    config.append(line.as_str());
}

/// The sshd configuration of a proxy. Every session runs the forced command, and a certificate is
/// only accepted for a principal the principals file names.
pub open spec fn sshd_config() -> Seq<char> {
    "Port "@ + numerals::numeral(PROXY_SSH_PORT as nat, 10) + "\n"@ + file_directive(
        "HostKey "@,
        HOST_KEY_FILENAME@,
    ) + file_directive("HostCertificate "@, HOST_CERT_FILENAME@) + file_directive(
        "TrustedUserCAKeys "@,
        CA_PUB_FILENAME@,
    ) + "StrictModes no\n"@ + file_directive(
        "AuthorizedPrincipalsFile "@,
        AUTHORIZED_PRINCIPALS_FILENAME@,
    ) + file_directive("ForceCommand "@, ENTER_HOST_SCRIPT_FILENAME@)
        + "PermitRootLogin yes\nPasswordAuthentication no\nKbdInteractiveAuthentication no\nSubsystem sftp "@
        + SFTP_SUBSYSTEM_MARKER@ + "\n"@
}

/// The sshd configuration of a proxy.
pub fn render_sshd_config() -> (res: String)
    ensures
        res@ == sshd_config(),
{
    let port = decimal(PROXY_SSH_PORT as u64);
    let mut config = concat3("Port ", port.as_str(), "\n");
    push_file_directive(&mut config, "HostKey ", HOST_KEY_FILENAME);
    push_file_directive(&mut config, "HostCertificate ", HOST_CERT_FILENAME);
    push_file_directive(&mut config, "TrustedUserCAKeys ", CA_PUB_FILENAME);
    config.append("StrictModes no\n");
    push_file_directive(&mut config, "AuthorizedPrincipalsFile ", AUTHORIZED_PRINCIPALS_FILENAME);
    push_file_directive(&mut config, "ForceCommand ", ENTER_HOST_SCRIPT_FILENAME);
    config.append(
        "PermitRootLogin yes\nPasswordAuthentication no\nKbdInteractiveAuthentication no\nSubsystem sftp ",
    );
    config.append(SFTP_SUBSYSTEM_MARKER);
    config.append("\n");
    config
}

/// The command that enters the host's mount, network, IPC and UTS namespaces. The short options are
/// glued to their values, the one form every `nsenter` understands.
pub const ENTER_NAMESPACES: &'static str =
    "\texec nsenter -m\"$NS/mnt\" -n\"$NS/net\" -i\"$NS/ipc\" -u\"$NS/uts\" -- sh";

/// What an sftp session runs on the host: the first server program found there.
pub const SFTP_SERVER_SEARCH: &'static str =
    " -c '\n\t\tfor c in /usr/lib/openssh/sftp-server /usr/libexec/openssh/sftp-server /usr/lib/ssh/sftp-server /usr/lib/misc/sftp-server /usr/lib64/misc/sftp-server /usr/lib64/openssh/sftp-server; do\n\t\t\t[ -x \"$c\" ] && exec \"$c\"\n\t\tdone\n\t\techo \"no sftp-server binary found on target host\" >&2\n\t\texit 1\n\t'\n";

/// The forced command of every session: it runs what was asked for in the host's namespaces, and a
/// server program for an sftp session.
pub open spec fn enter_host_script() -> Seq<char> {
    "#!/bin/sh\nset -e\nNS="@ + HOST_PROC_MOUNT_PATH@
        + "/1/ns\nif [ \"$SSH_ORIGINAL_COMMAND\" = \""@ + SFTP_SUBSYSTEM_MARKER@ + "\" ]; then\n"@
        + ENTER_NAMESPACES@ + SFTP_SERVER_SEARCH@ + "elif [ -n \"$SSH_ORIGINAL_COMMAND\" ]; then\n"@
        + ENTER_NAMESPACES@ + " -c \"$SSH_ORIGINAL_COMMAND\"\nelse\n"@ + ENTER_NAMESPACES@
        + "\nfi\n"@
}

/// The forced command of every session.
pub fn render_enter_host_script() -> (res: String)
    ensures
        res@ == enter_host_script(),
{
    let mut script = concat3(
        "#!/bin/sh\nset -e\nNS=",
        HOST_PROC_MOUNT_PATH,
        "/1/ns\nif [ \"$SSH_ORIGINAL_COMMAND\" = \"",
    );
    script.append(SFTP_SUBSYSTEM_MARKER);
    script.append("\" ]; then\n");
    script.append(ENTER_NAMESPACES);
    script.append(SFTP_SERVER_SEARCH);
    script.append("elif [ -n \"$SSH_ORIGINAL_COMMAND\" ]; then\n");
    script.append(ENTER_NAMESPACES);
    script.append(" -c \"$SSH_ORIGINAL_COMMAND\"\nelse\n");
    script.append(ENTER_NAMESPACES);
    script.append("\nfi\n");
    script
}

/// The files of a proxy's Secret. The principals file names the run and nothing else.
pub open spec fn proxy_files(run_id: Seq<char>, keys: KeyMaterial) -> Map<Seq<char>, Seq<char>> {
    Map::<Seq<char>, Seq<char>>::empty().insert(HOST_KEY_FILENAME@, keys.private_key@).insert(
        HOST_CERT_FILENAME@,
        keys.certificate@,
    ).insert(CA_PUB_FILENAME@, keys.ca_public_key@).insert(
        AUTHORIZED_PRINCIPALS_FILENAME@,
        run_id + "\n"@,
    ).insert("sshd_config"@, sshd_config()).insert(ENTER_HOST_SCRIPT_FILENAME@, enter_host_script())
}

/// Whether a Secret is that of a proxy with these keys.
pub open spec fn is_proxy_secret(
    secret: Secret,
    name: Seq<char>,
    hash: ExecutionHash,
    run_id: Seq<char>,
    host: Seq<char>,
    keys: KeyMaterial,
) -> bool {
    &&& plain_metadata(secret.metadata, name, proxy_labels(hash, run_id, host))
    &&& textmap::label_texts(secret.string_data@) == proxy_files(run_id, keys)
}

/// The Secret of a proxy with these keys.
pub fn proxy_secret(
    name: &str,
    execution_hash: &ExecutionHash,
    run_id: &str,
    host: &str,
    keys: &KeyMaterial,
) -> (res: Secret)
    ensures
        is_proxy_secret(res, name@, *execution_hash, run_id@, host@, *keys),
{
    let principals = concat(run_id, "\n");
    let config = render_sshd_config();
    let script = render_enter_host_script();
    let mut files = no_texts();
    set_text(&mut files, HOST_KEY_FILENAME, keys.private_key.as_str());
    set_text(&mut files, HOST_CERT_FILENAME, keys.certificate.as_str());
    set_text(&mut files, CA_PUB_FILENAME, keys.ca_public_key.as_str());
    set_text(&mut files, AUTHORIZED_PRINCIPALS_FILENAME, principals.as_str());
    set_text(&mut files, "sshd_config", config.as_str());
    set_text(&mut files, ENTER_HOST_SCRIPT_FILENAME, script.as_str());
    Secret {
        metadata: new_metadata(name, run_labels(execution_hash, run_id, host)),
        string_data: files,
    }
}

/// The Secret of a proxy, with a new key that the authority signed for its host.
pub fn build_secret(
    name: &str,
    execution_hash: &ExecutionHash,
    run_id: &str,
    host: &str,
    ca: &CertificateAuthority,
    now_epoch_secs: u64,
) -> (res: Result<Secret, CaError>)
    ensures
        res matches Ok(secret) ==> exists|keys: KeyMaterial, nonce: Seq<u8>|
            #![trigger ca::host_certified(keys, ca.private_key@, host@, now_epoch_secs, nonce)]
            ca::host_certified(keys, ca.private_key@, host@, now_epoch_secs, nonce)
                && is_proxy_secret(secret, name@, *execution_hash, run_id@, host@, keys),
{
    match ca.host_keys(host, now_epoch_secs) {
        Ok(keys) => Ok(proxy_secret(name, execution_hash, run_id, host, &keys)),
        Err(error) => Err(error),
    }
}

/// A proxy accepts exactly its own run's principal: what it lists is the run, so two runs that
/// differ list different principals.
pub proof fn principals_separate_runs(a: Seq<char>, b: Seq<char>, keys: KeyMaterial)
    requires
        a != b,
    ensures
        proxy_files(a, keys)[AUTHORIZED_PRINCIPALS_FILENAME@] == a + "\n"@,
        proxy_files(a, keys)[AUTHORIZED_PRINCIPALS_FILENAME@] != proxy_files(
            b,
            keys,
        )[AUTHORIZED_PRINCIPALS_FILENAME@],
{
    reveal_strlit("authorized_principals");
    reveal_strlit("sshd_config");
    reveal_strlit("enter-host.sh");
    assert(AUTHORIZED_PRINCIPALS_FILENAME@.len() == 21);
    assert("sshd_config"@.len() == 11);
    assert(ENTER_HOST_SCRIPT_FILENAME@.len() == 13);
    let x = a + "\n"@;
    let y = b + "\n"@;
    if x == y {
        reveal_strlit("\n");
        assert(x.len() == a.len() + 1 && y.len() == b.len() + 1);
        assert(a =~= x.take(a.len() as int));
        assert(b =~= y.take(b.len() as int));
    }
}

/// What a run logs in with is accepted by its own proxies and by those of no other run: of the
/// principals it is signed for, the one a proxy lists is among them only where the run is the same.
pub proof fn a_runs_certificate_is_for_its_own_proxies(a: Seq<char>, b: Seq<char>)
    requires
        a.len() == RUN_ID_LENGTH,
        b.len() == RUN_ID_LENGTH,
    ensures
        seq!["root"@, a].contains(b) <==> a == b,
{
    reveal_strlit("root");
    let principals = seq!["root"@, a];
    assert(principals[1] == a);
    if principals.contains(b) && a != b {
        let i = choose|i: int| 0 <= i < principals.len() && principals[i] == b;
        assert(i == 0);
        assert("root"@.len() == 4);
    }
}

// --- the proxy pod ---------------------------------------------------------------------------

/// Whether a volume is a Secret, whole, with these permissions.
pub open spec fn secret_volume(v: Volume, name: Seq<char>, secret: Seq<char>, mode: Option<i32>) -> bool {
    &&& v.name@ == name
    &&& v.source matches VolumeSource::Secret { secret_name, default_mode, items } && secret_name@
        == secret && default_mode == mode && items is None
}

/// Whether a volume is mounted here.
pub open spec fn mounted(m: VolumeMount, name: Seq<char>, path: Seq<char>, read_only: Option<bool>) -> bool {
    m.name@ == name && m.mount_path@ == path && m.read_only == read_only
}

/// The proxy's container: sshd in the foreground, with the two capabilities that entering the host's
/// namespaces takes, and never fully privileged.
pub open spec fn sshd_container(c: Container, image: Seq<char>) -> bool {
    &&& c.name@ == "sshd"@
    &&& c.image@ == image
    &&& text::texts(c.command@) == seq![
        "/usr/sbin/sshd"@,
        "-D"@,
        "-e"@,
        "-f"@,
        config_path("sshd_config"@),
    ]
    &&& c.working_dir is None
    &&& c.volume_mounts@.len() == 2
    &&& mounted(c.volume_mounts@[0], "sshd-config"@, SSHD_CONFIG_MOUNT_PATH@, Some(true))
    &&& mounted(c.volume_mounts@[1], "host-proc"@, HOST_PROC_MOUNT_PATH@, Some(true))
    &&& c.env@.len() == 0
    &&& c.security_context matches Some(
        SecurityContext::Granted { privileged, add_capabilities, se_linux_type },
    ) && privileged is None && text::texts(add_capabilities@) == seq!["SYS_ADMIN"@, "SYS_PTRACE"@]
        && se_linux_type@ == "spc_t"@
    &&& c.readiness_probe == Some(TcpProbe { port: PROXY_SSH_PORT, period_seconds: 2 })
    &&& c.termination_message_path is None
    &&& c.termination_message_policy is None
}

/// The proxy pod of a host: pinned to the host's Node by its label, sharing the host's process IDs
/// and nothing else of it, with no API token.
pub open spec fn proxy_pod(
    pod: Pod,
    name: Seq<char>,
    secret_name: Seq<char>,
    hash: ExecutionHash,
    run_id: Seq<char>,
    host: Seq<char>,
    user: Seq<Toleration>,
    image: Seq<char>,
) -> bool {
    &&& plain_metadata(pod.metadata, name, proxy_labels(hash, run_id, host))
    &&& pod.spec.containers@.len() == 1
    &&& sshd_container(pod.spec.containers@[0], image)
    &&& pod.spec.init_containers@.len() == 0
    &&& pod.spec.volumes@.len() == 2
    &&& secret_volume(pod.spec.volumes@[0], "sshd-config"@, secret_name, Some(0o500i32))
    &&& pod.spec.volumes@[1].name@ == "host-proc"@
    &&& pod.spec.volumes@[1].source matches VolumeSource::HostPath { type_, path } && type_@
        == "Directory"@ && path@ == "/proc"@
    &&& pod.spec.restart_policy@ == "Never"@
    &&& pod.spec.service_account_name is None
    &&& !pod.spec.automount_service_account_token
    &&& pod.spec.host_pid
    &&& !pod.spec.host_network
    &&& !pod.spec.host_ipc
    &&& textmap::label_texts(pod.spec.node_selector@) == Map::<Seq<char>, Seq<char>>::empty().insert(
        HOSTNAME_LABEL@,
        host,
    )
    &&& merged_with_defaults(user, pod.spec.tolerations@)
    &&& pod.spec.preferred_nodes@.len() == 0
}

fn build_sshd_container(proxy_image: &str) -> (res: Container)
    ensures
        sshd_container(res, proxy_image@),
{
    let command: Vec<String> = vec![
        "/usr/sbin/sshd".to_owned(),
        "-D".to_owned(),
        "-e".to_owned(),
        "-f".to_owned(),
        config_file("sshd_config"),
    ];
    assert(text::texts(command@) =~= seq![
        "/usr/sbin/sshd"@,
        "-D"@,
        "-e"@,
        "-f"@,
        config_path("sshd_config"@),
    ]);
    let add_capabilities: Vec<String> = vec!["SYS_ADMIN".to_owned(), "SYS_PTRACE".to_owned()];
    assert(text::texts(add_capabilities@) =~= seq!["SYS_ADMIN"@, "SYS_PTRACE"@]);
    Container {
        name: "sshd".to_owned(),
        image: proxy_image.to_owned(),
        command,
        working_dir: None,
        volume_mounts: vec![
            VolumeMount {
                name: "sshd-config".to_owned(),
                mount_path: SSHD_CONFIG_MOUNT_PATH.to_owned(),
                read_only: Some(true),
            },
            VolumeMount {
                name: "host-proc".to_owned(),
                mount_path: HOST_PROC_MOUNT_PATH.to_owned(),
                read_only: Some(true),
            },
        ],
        env: Vec::new(),
        security_context: Some(
            SecurityContext::Granted {
                privileged: None,
                add_capabilities,
                se_linux_type: "spc_t".to_owned(),
            },
        ),
        readiness_probe: Some(TcpProbe { port: PROXY_SSH_PORT, period_seconds: 2 }),
        termination_message_path: None,
        termination_message_policy: None,
    }
}

/// The proxy pod of a host.
pub fn build_pod(
    name: &str,
    secret_name: &str,
    execution_hash: &ExecutionHash,
    run_id: &str,
    host: &str,
    tolerations: Option<&[Toleration]>,
    proxy_image: &str,
) -> (res: Pod)
    ensures
        proxy_pod(
            res,
            name@,
            secret_name@,
            *execution_hash,
            run_id@,
            host@,
            user_tolerations(tolerations),
            proxy_image@,
        ),
{
    let mut node_selector = no_texts();
    set_text(&mut node_selector, HOSTNAME_LABEL, host);
    let config_volume = Volume {
        name: "sshd-config".to_owned(),
        source: VolumeSource::Secret {
            secret_name: secret_name.to_owned(),
            default_mode: Some(0o500i32),
            items: None,
        },
    };
    let proc_volume = Volume {
        name: "host-proc".to_owned(),
        source: VolumeSource::HostPath { type_: "Directory".to_owned(), path: "/proc".to_owned() },
    };
    Pod {
        metadata: new_metadata(name, run_labels(execution_hash, run_id, host)),
        spec: PodSpec {
            containers: vec![build_sshd_container(proxy_image)],
            init_containers: Vec::new(),
            volumes: vec![config_volume, proc_volume],
            restart_policy: "Never".to_owned(),
            service_account_name: None,
            automount_service_account_token: false,
            host_pid: true,
            host_network: false,
            host_ipc: false,
            node_selector,
            tolerations: merge_default_tolerations(tolerations),
            preferred_nodes: Vec::new(),
        },
    }
}

// --- the policy ------------------------------------------------------------------------------

/// The labels of one component of an attempt.
pub open spec fn component_labels(hash: ExecutionHash, run_id: Seq<char>, component: Seq<char>) -> Map<
    Seq<char>,
    Seq<char>,
> {
    attempt_label_texts(hash, run_id).insert(COMPONENT@, component)
}

/// The policy that shields an attempt's proxies: only the attempt's own Job pod, in the plan's
/// namespace, reaches them, and only on the SSH port. What they may reach is governed only where it
/// is configured.
pub open spec fn proxy_policy(
    policy: NetworkPolicy,
    name: Seq<char>,
    hash: ExecutionHash,
    run_id: Seq<char>,
    job_namespace: Seq<char>,
    egress: Option<Vec<EgressRule>>,
) -> bool {
    &&& plain_metadata(policy.metadata, name, attempt_label_texts(hash, run_id))
    &&& textmap::label_texts(policy.pod_selector@) == component_labels(
        hash,
        run_id,
        MANAGED_SSH_PROXY_COMPONENT@,
    )
    &&& text::texts(policy.policy_types@) == if egress is Some {
        seq!["Ingress"@, "Egress"@]
    } else {
        seq!["Ingress"@]
    }
    &&& policy.ingress is Some
    &&& policy.ingress->0@.len() == 1
    &&& policy.ingress->0@[0].from@.len() == 1
    &&& textmap::label_texts(policy.ingress->0@[0].from@[0].namespace_selector@) == Map::<
        Seq<char>,
        Seq<char>,
    >::empty().insert(NAMESPACE_NAME_LABEL@, job_namespace)
    &&& textmap::label_texts(policy.ingress->0@[0].from@[0].pod_selector@) == component_labels(
        hash,
        run_id,
        PLAYBOOK_COMPONENT@,
    )
    &&& policy.ingress->0@[0].ports@.len() == 1
    &&& policy.ingress->0@[0].ports@[0].port == PROXY_SSH_PORT
    &&& policy.ingress->0@[0].ports@[0].protocol@ == "TCP"@
    &&& policy.egress == egress
}

fn component_selector(execution_hash: &ExecutionHash, run_id: &str, component: &str) -> (res: LabelMap)
    ensures
        textmap::label_texts(res@) == component_labels(*execution_hash, run_id@, component@),
{
    let mut labels = attempt_labels(execution_hash, run_id);
    set_text(&mut labels, COMPONENT, component);
    labels
}

/// The policy that shields an attempt's proxies.
pub fn build_network_policy(
    name: &str,
    execution_hash: &ExecutionHash,
    run_id: &str,
    job_namespace: &str,
    egress: Option<Vec<EgressRule>>,
) -> (res: NetworkPolicy)
    ensures
        proxy_policy(res, name@, *execution_hash, run_id@, job_namespace@, egress),
{
    let mut policy_types: Vec<String> = vec!["Ingress".to_owned()];
    if egress.is_some() {
        policy_types.push("Egress".to_owned());
    }
    assert(text::texts(policy_types@) =~= if egress is Some {
        seq!["Ingress"@, "Egress"@]
    } else {
        seq!["Ingress"@]
    });
    let mut namespace_selector = no_texts();
    set_text(&mut namespace_selector, NAMESPACE_NAME_LABEL, job_namespace);
    let peer = NetworkPolicyPeer {
        namespace_selector,
        pod_selector: component_selector(execution_hash, run_id, PLAYBOOK_COMPONENT),
    };
    let port = NetworkPolicyPort { port: PROXY_SSH_PORT, protocol: "TCP".to_owned() };
    NetworkPolicy {
        metadata: new_metadata(name, attempt_labels(execution_hash, run_id)),
        pod_selector: component_selector(execution_hash, run_id, MANAGED_SSH_PROXY_COMPONENT),
        policy_types,
        ingress: Some(vec![IngressRule { from: vec![peer], ports: vec![port] }]),
        egress,
    }
}

/// The policy's selector matches every proxy of its attempt, and no proxy of another.
pub proof fn policy_covers_its_attempts_proxies(
    hash: ExecutionHash,
    run_id: Seq<char>,
    other_run: Seq<char>,
    host: Seq<char>,
)
    ensures
        component_labels(hash, run_id, MANAGED_SSH_PROXY_COMPONENT@).submap_of(
            proxy_labels(hash, run_id, host),
        ),
        other_run != run_id ==> !component_labels(
            hash,
            run_id,
            MANAGED_SSH_PROXY_COMPONENT@,
        ).submap_of(proxy_labels(hash, other_run, host)),
{
    crate::labels::labels_are_distinct();
    let selector = component_labels(hash, run_id, MANAGED_SSH_PROXY_COMPONENT@);
    let other = proxy_labels(hash, other_run, host);
    if selector.submap_of(other) {
        assert(selector.dom().contains(RUN_ID@) && other.dom().contains(RUN_ID@));
        assert(selector[RUN_ID@] == other[RUN_ID@]);
    }
}

// --- the client identity ---------------------------------------------------------------------

/// The files of a run's client identity. The known-hosts file trusts every host the authority
/// signed for.
pub open spec fn client_files(keys: KeyMaterial) -> Map<Seq<char>, Seq<char>> {
    Map::<Seq<char>, Seq<char>>::empty().insert(
        MANAGED_SSH_CLIENT_KEY_FILENAME@,
        keys.private_key@,
    ).insert(MANAGED_SSH_CLIENT_CERT_FILENAME@, keys.certificate@).insert(
        MANAGED_SSH_KNOWN_HOSTS_FILENAME@,
        "@cert-authority * "@ + keys.ca_public_key@,
    )
}

/// The files of a run's client identity with these keys.
pub fn client_cert_files(keys: &KeyMaterial) -> (res: LabelMap)
    ensures
        textmap::label_texts(res@) == client_files(*keys),
{
    let known_hosts = concat("@cert-authority * ", keys.ca_public_key.as_str());
    let mut files = no_texts();
    set_text(&mut files, MANAGED_SSH_CLIENT_KEY_FILENAME, keys.private_key.as_str());
    set_text(&mut files, MANAGED_SSH_CLIENT_CERT_FILENAME, keys.certificate.as_str());
    set_text(&mut files, MANAGED_SSH_KNOWN_HOSTS_FILENAME, known_hosts.as_str());
    files
}

/// The files of a run's client identity, with a new key that the authority signed for the run.
pub fn render_client_cert_files(ca: &CertificateAuthority, run_id: &str, now_epoch_secs: u64) -> (res:
    Result<LabelMap, CaError>)
    ensures
        res matches Ok(files) ==> exists|keys: KeyMaterial, nonce: Seq<u8>|
            #![trigger ca::client_certified(keys, ca.private_key@, run_id@, now_epoch_secs, nonce)]
            ca::client_certified(keys, ca.private_key@, run_id@, now_epoch_secs, nonce)
                && textmap::label_texts(files@) == client_files(keys),
{
    match ca.client_keys(run_id, now_epoch_secs) {
        Ok(keys) => Ok(client_cert_files(&keys)),
        Err(error) => Err(error),
    }
}

/// A client identity that an authority has just signed trusts that authority, so proxies that were
/// rebuilt are not rebuilt again.
pub proof fn a_new_identity_trusts_its_authority(files: SecretData, keys: KeyMaterial)
    requires
        files@.contains_key(MANAGED_SSH_KNOWN_HOSTS_FILENAME@),
        files@[MANAGED_SSH_KNOWN_HOSTS_FILENAME@]@ == utf8::encode_utf8(
            client_files(keys)[MANAGED_SSH_KNOWN_HOSTS_FILENAME@],
        ),
    ensures
        managed_ssh::trusts(files, keys.ca_public_key@),
{
    broadcast use vstd::utf8::encode_utf8_valid_utf8;
    broadcast use vstd::utf8::encode_utf8_decode_utf8;

    let known_hosts = "@cert-authority * "@ + keys.ca_public_key@;
    let at = "@cert-authority * "@.len() as int;
    assert(known_hosts.subrange(at, at + keys.ca_public_key@.len()) =~= keys.ca_public_key@);
    assert(search::occurs_at(known_hosts, keys.ca_public_key@, at));
}

/// The Secret of a run's client identity, owned by the plan.
pub fn build_client_cert_secret(
    execution_hash: &ExecutionHash,
    run_id: &str,
    files: LabelMap,
    plan_owner: OwnerReference,
) -> (res: Secret)
    ensures
        text::text_of(res.metadata.name) == Some(managed_ssh::client_secret_name(run_id@)),
        textmap::label_texts(res.metadata.labels@) == attempt_label_texts(*execution_hash, run_id@),
        res.metadata.owner_references@ == seq![plan_owner],
        res.metadata.namespace is None,
        res.metadata.unstamped(),
        res.metadata.resource_version is None,
        res.metadata.annotations@ == Map::<Seq<char>, String>::empty(),
        res.string_data == files,
{
    let name = client_cert_secret_name(run_id);
    let mut metadata = new_metadata(name.as_str(), attempt_labels(execution_hash, run_id));
    metadata.owner_references = vec![plan_owner];
    assert(metadata.owner_references@ =~= seq![plan_owner]);
    Secret { metadata, string_data: files }
}

// --- what a proxy is made of -----------------------------------------------------------------

/// A proxy says which run and host it is for, and what it is.
pub proof fn a_proxy_says_what_it_is_for(hash: ExecutionHash, run_id: Seq<char>, host: Seq<char>)
    ensures
        proxy_labels(hash, run_id, host).contains_pair(
            "ansible.cloudbending.dev/hash"@,
            numerals::numeral(hash.0 as nat, 16),
        ),
        proxy_labels(hash, run_id, host).contains_pair("ansible.cloudbending.dev/run-id"@, run_id),
        proxy_labels(hash, run_id, host).contains_pair("ansible.cloudbending.dev/host"@, host),
        proxy_labels(hash, run_id, host).contains_pair(
            "app.kubernetes.io/component"@,
            "managed-ssh-proxy"@,
        ),
        attempt_label_texts(hash, run_id).contains_pair(
            "ansible.cloudbending.dev/hash"@,
            numerals::numeral(hash.0 as nat, 16),
        ),
        attempt_label_texts(hash, run_id).contains_pair("ansible.cloudbending.dev/run-id"@, run_id),
{
    crate::labels::labels_are_distinct();
}

proof fn lemma_file_names()
    ensures
        "ssh_host_ed25519_key"@ != "ssh_host_ed25519_key-cert.pub"@,
        "ssh_host_ed25519_key"@ != "ca.pub"@,
        "ssh_host_ed25519_key"@ != "authorized_principals"@,
        "ssh_host_ed25519_key"@ != "sshd_config"@,
        "ssh_host_ed25519_key"@ != "enter-host.sh"@,
        "ssh_host_ed25519_key-cert.pub"@ != "ca.pub"@,
        "ssh_host_ed25519_key-cert.pub"@ != "authorized_principals"@,
        "ssh_host_ed25519_key-cert.pub"@ != "sshd_config"@,
        "ssh_host_ed25519_key-cert.pub"@ != "enter-host.sh"@,
        "ca.pub"@ != "authorized_principals"@,
        "ca.pub"@ != "sshd_config"@,
        "ca.pub"@ != "enter-host.sh"@,
        "authorized_principals"@ != "sshd_config"@,
        "authorized_principals"@ != "enter-host.sh"@,
        "sshd_config"@ != "enter-host.sh"@,
        "id_ed25519"@ != "id_ed25519-cert.pub"@,
        "id_ed25519"@ != "known_hosts"@,
        "id_ed25519-cert.pub"@ != "known_hosts"@,
{
    reveal_strlit("ssh_host_ed25519_key");
    reveal_strlit("ssh_host_ed25519_key-cert.pub");
    reveal_strlit("ca.pub");
    reveal_strlit("authorized_principals");
    reveal_strlit("sshd_config");
    reveal_strlit("enter-host.sh");
    reveal_strlit("id_ed25519");
    reveal_strlit("id_ed25519-cert.pub");
    reveal_strlit("known_hosts");
    assert("ssh_host_ed25519_key"@.len() == 20);
    assert("ssh_host_ed25519_key-cert.pub"@.len() == 29);
    assert("ca.pub"@.len() == 6);
    assert("authorized_principals"@.len() == 21);
    assert("sshd_config"@.len() == 11);
    assert("enter-host.sh"@.len() == 13);
    assert("id_ed25519"@.len() == 10);
    assert("id_ed25519-cert.pub"@.len() == 19);
    assert("known_hosts"@.len() == 11);
}

/// A proxy has the keys it proves itself with, trusts the operator's authority alone, lets in its own run alone,
/// and runs with the configuration that says so.
pub proof fn a_proxy_has_its_files(run_id: Seq<char>, keys: KeyMaterial)
    ensures
        proxy_files(run_id, keys).contains_pair("ssh_host_ed25519_key"@, keys.private_key@),
        proxy_files(run_id, keys).contains_pair("ssh_host_ed25519_key-cert.pub"@, keys.certificate@),
        proxy_files(run_id, keys).contains_pair("ca.pub"@, keys.ca_public_key@),
        proxy_files(run_id, keys).contains_pair("authorized_principals"@, run_id + "\n"@),
        proxy_files(run_id, keys).contains_pair("sshd_config"@, sshd_config()),
        proxy_files(run_id, keys).contains_pair("enter-host.sh"@, enter_host_script()),
{
    lemma_file_names();
}

/// A run has the key and the certificate it logs in with, and knows hosts by the operator's authority.
pub proof fn a_run_has_its_client_files(keys: KeyMaterial)
    ensures
        client_files(keys).contains_pair("id_ed25519"@, keys.private_key@),
        client_files(keys).contains_pair("id_ed25519-cert.pub"@, keys.certificate@),
        client_files(keys).contains_pair(
            "known_hosts"@,
            "@cert-authority * "@ + keys.ca_public_key@,
        ),
{
    lemma_file_names();
}

/// A proxy runs on its host alone, in the host's process space but not in its network, from the image asked
/// for and with the keys of its Secret, and is never started again.
pub proof fn a_proxy_runs_on_its_host(
    pod: Pod,
    name: Seq<char>,
    secret_name: Seq<char>,
    hash: ExecutionHash,
    run_id: Seq<char>,
    host: Seq<char>,
    user: Seq<Toleration>,
    image: Seq<char>,
)
    requires
        proxy_pod(pod, name, secret_name, hash, run_id, host, user, image),
    ensures
        textmap::label_texts(pod.spec.node_selector@).contains_pair("kubernetes.io/hostname"@, host),
        pod.metadata.name is Some && pod.metadata.name->0@ == name,
        pod.spec.host_pid,
        !pod.spec.host_network,
        !pod.spec.host_ipc,
        !pod.spec.automount_service_account_token,
        pod.spec.restart_policy@ == "Never"@,
        pod.spec.containers@.len() == 1,
        pod.spec.containers@[0].image@ == image,
        pod.spec.containers@[0].readiness_probe is Some
            && pod.spec.containers@[0].readiness_probe->0.port == 22,
        pod.spec.volumes@[0].source is Secret && pod.spec.volumes@[0].source->secret_name@
            == secret_name,
        pod.spec.volumes@[1].source is HostPath && pod.spec.volumes@[1].source->HostPath_path@
            == "/proc"@,
        pod.spec.containers@[0].volume_mounts@[0].name@ == pod.spec.volumes@[0].name@
            && pod.spec.containers@[0].volume_mounts@[0].mount_path@
            == "/etc/ansible-operator-sshd"@,
        pod.spec.containers@[0].volume_mounts@[1].name@ == pod.spec.volumes@[1].name@
            && pod.spec.containers@[0].volume_mounts@[1].mount_path@ == "/host/proc"@,
        forall|i: int| 0 <= i < user.len() ==> pod.spec.tolerations@[i] == #[trigger] user[i],
{
    assert forall|i: int| 0 <= i < user.len() implies pod.spec.tolerations@[i]
        == #[trigger] user[i] by {
        assert(pod.spec.tolerations@.take(user.len() as int)[i] == user[i]);
    }
}

/// A proxy tolerates for good that its Node is not ready or cannot be reached, unless the inventory says
/// something of its own about that.
pub proof fn a_proxy_stays_on_a_failing_node(user: Seq<Toleration>, merged: Seq<Toleration>)
    requires
        merged_with_defaults(user, merged),
        forall|i: int|
            0 <= i < user.len() ==> text::text_of((#[trigger] user[i]).key) != Some(
                "node.kubernetes.io/not-ready"@,
            ) && text::text_of(user[i].key) != Some("node.kubernetes.io/unreachable"@),
    ensures
        merged.len() == user.len() + 2,
        text::text_of(merged[user.len() as int].key) == Some("node.kubernetes.io/not-ready"@),
        text::text_of(merged[user.len() as int].operator) == Some("Exists"@),
        merged[user.len() as int].effect is None,
        merged[user.len() as int].toleration_seconds is None,
        text::text_of(merged[(user.len() + 1) as int].key) == Some("node.kubernetes.io/unreachable"@),
        text::text_of(merged[(user.len() + 1) as int].operator) == Some("Exists"@),
        merged[(user.len() + 1) as int].effect is None,
        merged[(user.len() + 1) as int].toleration_seconds is None,
{
}

/// Only the Pods of the run's own Job, in the Job's Namespace, reach its proxies, and only where ssh listens.
pub proof fn only_its_job_reaches_a_proxy(
    policy: NetworkPolicy,
    name: Seq<char>,
    hash: ExecutionHash,
    run_id: Seq<char>,
    job_namespace: Seq<char>,
    egress: Option<Vec<EgressRule>>,
)
    requires
        proxy_policy(policy, name, hash, run_id, job_namespace, egress),
    ensures
        policy.ingress is Some && policy.ingress->0@.len() == 1 && policy.ingress->0@[0].from@.len()
            == 1 && policy.ingress->0@[0].ports@.len() == 1,
        policy.ingress->0@[0].ports@[0].port == 22,
        policy.ingress->0@[0].ports@[0].protocol@ == "TCP"@,
        textmap::label_texts(policy.ingress->0@[0].from@[0].namespace_selector@).contains_pair(
            "kubernetes.io/metadata.name"@,
            job_namespace,
        ),
        textmap::label_texts(policy.ingress->0@[0].from@[0].pod_selector@).contains_pair(
            "app.kubernetes.io/component"@,
            "playbook"@,
        ),
        textmap::label_texts(policy.ingress->0@[0].from@[0].pod_selector@).contains_pair(
            "ansible.cloudbending.dev/run-id"@,
            run_id,
        ),
        textmap::label_texts(policy.ingress->0@[0].from@[0].pod_selector@).contains_pair(
            "ansible.cloudbending.dev/hash"@,
            numerals::numeral(hash.0 as nat, 16),
        ),
        textmap::label_texts(policy.pod_selector@).contains_pair(
            "app.kubernetes.io/component"@,
            "managed-ssh-proxy"@,
        ),
        textmap::label_texts(policy.pod_selector@).contains_pair(
            "ansible.cloudbending.dev/run-id"@,
            run_id,
        ),
        text::texts(policy.policy_types@)[0] == "Ingress"@,
        egress is Some <==> text::texts(policy.policy_types@).len() == 2,
        policy.egress == egress,
{
    crate::labels::labels_are_distinct();
}

/// What is made for a run carries its name and its labels and nothing that the API server gives out.
pub proof fn what_is_made_is_new(
    metadata: ObjectMeta,
    name: Seq<char>,
    labels: Map<Seq<char>, Seq<char>>,
)
    requires
        plain_metadata(metadata, name, labels),
    ensures
        metadata.name is Some && metadata.name->0@ == name,
        textmap::label_texts(metadata.labels@) == labels,
        metadata.namespace is None,
        metadata.resource_version is None,
        metadata.uid is None,
        metadata.deletion_timestamp is None,
        metadata.owner_references@.len() == 0,
        metadata.annotations@ == Map::<Seq<char>, String>::empty(),
{
}

/// The sshd of a proxy runs in the foreground on the configuration of its Secret, may enter its host and no more,
/// and is asked every two seconds whether it listens.
pub proof fn a_proxys_sshd_is_set_up(c: Container, image: Seq<char>)
    requires
        sshd_container(c, image),
    ensures
        c.name@ == "sshd"@,
        c.image@ == image,
        text::texts(c.command@) == seq![
            "/usr/sbin/sshd"@,
            "-D"@,
            "-e"@,
            "-f"@,
            "/etc/ansible-operator-sshd"@ + "/"@ + "sshd_config"@,
        ],
        c.env@.len() == 0,
        c.working_dir is None,
        c.termination_message_path is None,
        c.termination_message_policy is None,
        c.volume_mounts@.len() == 2,
        c.volume_mounts@[0].read_only == Some(true),
        c.volume_mounts@[1].read_only == Some(true),
        c.readiness_probe is Some && c.readiness_probe->0.period_seconds == 2,
        c.security_context matches Some(
            SecurityContext::Granted { privileged, add_capabilities, se_linux_type },
        ) && privileged is None && text::texts(add_capabilities@) == seq![
            "SYS_ADMIN"@,
            "SYS_PTRACE"@,
        ] && se_linux_type@ == "spc_t"@,
{
}

/// A proxy's Pod has the volumes of its files and of its host's processes and nothing else, and acts for nobody.
pub proof fn a_proxys_pod_has_its_volumes(
    pod: Pod,
    name: Seq<char>,
    secret_name: Seq<char>,
    hash: ExecutionHash,
    run_id: Seq<char>,
    host: Seq<char>,
    user: Seq<Toleration>,
    image: Seq<char>,
)
    requires
        proxy_pod(pod, name, secret_name, hash, run_id, host, user, image),
    ensures
        pod.spec.volumes@.len() == 2,
        pod.spec.volumes@[0].source matches VolumeSource::Secret { secret_name: s, default_mode, items }
            && s@ == secret_name && default_mode == Some(320i32) && items is None,
        pod.spec.volumes@[1].source matches VolumeSource::HostPath { type_, path } && type_@
            == "Directory"@ && path@ == "/proc"@,
        pod.spec.service_account_name is None,
        pod.spec.init_containers@.len() == 0,
        pod.spec.preferred_nodes@.len() == 0,
        textmap::label_texts(pod.metadata.labels@) == proxy_labels(hash, run_id, host),
        textmap::label_texts(pod.spec.node_selector@) == Map::<Seq<char>, Seq<char>>::empty().insert(
            "kubernetes.io/hostname"@,
            host,
        ),
{
}

} // verus!
