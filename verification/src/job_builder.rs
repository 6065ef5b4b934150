//! The Job of a run: one pod that runs `ansible-playbook` against the whole inventory.

use vstd::prelude::*;
use crate::ansible_inventory;
use crate::ansible_inventory::{managed_ssh_node_names, object_keys, ResolvedInventoryGroup};
use crate::execution_evaluator::ExecutionHash;
use crate::job_names;
use crate::job_names::{job_name, job_network_policy_name};
use crate::json;
use crate::json::member;
use crate::labels::{
    COMPONENT, MANAGED_SSH_PROXY_COMPONENT, PLAYBOOKPLAN_HASH, PLAYBOOKPLAN_HOST, PLAYBOOKPLAN_NAME,
    PLAYBOOK_COMPONENT, PLAY_UID_ANNOTATION, RUN_ID,
};
use crate::managed_ssh;
use crate::managed_ssh::{client_cert_secret_name, PROXY_SSH_PORT};
use crate::numerals;
use crate::numerals::decimal;
use crate::paths;
use crate::paths::{static_inventory_ssh_dir, MANAGED_SSH_CLIENT_DIR, WORKSPACE_MOUNT_PATH};
use crate::plans::{
    FilesSource, PlaybookPlan, PlaybookVariableSource, ReconcileError, PLAN_API_VERSION, PLAN_KIND,
};
use crate::proxy_objects::{HOSTNAME_LABEL, NAMESPACE_NAME_LABEL};
use crate::resources::{copy_variables, LabelMap, ObjectMeta, OwnerReference, SshConfig};
use crate::search;
use crate::search::find_from;
use crate::text;
use crate::text::{clone_optional, clone_strings, concat, concat3, contains_text, slice_chars, to_chars};
use crate::textmap;
use crate::textmap::{no_texts, set_text};
use crate::workloads;
use crate::workloads::{
    copy_mounts, Container, EgressRule, EnvVar, Job, KeyToPath, NetworkPolicy, NetworkPolicyPeer,
    NetworkPolicyPort, PodSpec, PodTemplate, PreferredNodeTerm, SecurityContext, SourceView, Volume,
    VolumeMount, VolumeSource,
};

verus! {

/// The container that runs `ansible-playbook`, and whose termination message carries the recap.
pub const ANSIBLE_CONTAINER_NAME: &'static str = "ansible-playbook";

/// How long a finished Job is kept where its plan does not say.
pub const DEFAULT_JOB_TTL_SECONDS_AFTER_FINISHED: i32 = 3600;

/// The shortest a finished Job is kept: its result must outlive the time it takes to read it.
pub const MIN_JOB_TTL_SECONDS_AFTER_FINISHED: i32 = 60;

/// The most verbose Ansible usefully gets.
pub const MAX_VERBOSITY: u8 = 4;

/// How long a plan's finished Jobs are kept: what the plan says, but never too short.
pub fn effective_job_ttl(plan: &PlaybookPlan) -> (res: i32)
    ensures
        res == job_ttl(*plan),
{
    match plan.spec.ttl_seconds_after_finished {
        Some(seconds) => if seconds < MIN_JOB_TTL_SECONDS_AFTER_FINISHED {
            MIN_JOB_TTL_SECONDS_AFTER_FINISHED
        } else {
            seconds
        },
        None => DEFAULT_JOB_TTL_SECONDS_AFTER_FINISHED,
    }
}

/// How long a plan's finished Jobs are kept.
pub open spec fn job_ttl(plan: PlaybookPlan) -> i32 {
    match plan.spec.ttl_seconds_after_finished {
        Some(seconds) => if seconds < MIN_JOB_TTL_SECONDS_AFTER_FINISHED {
            MIN_JOB_TTL_SECONDS_AFTER_FINISHED
        } else {
            seconds
        },
        None => DEFAULT_JOB_TTL_SECONDS_AFTER_FINISHED,
    }
}

// --- what a plan refers to -------------------------------------------------------------------

/// The Secrets among variable sources, in order.
pub open spec fn secret_sources(sources: Seq<PlaybookVariableSource>) -> Seq<Seq<char>>
    decreases sources.len(),
{
    if sources.len() == 0 {
        Seq::empty()
    } else {
        let rest = secret_sources(sources.drop_last());
        match sources.last() {
            PlaybookVariableSource::SecretRef { secret_ref } => rest.push(secret_ref.name@),
            PlaybookVariableSource::Inline { .. } => rest,
        }
    }
}

/// How many variable sources are written out in the plan.
pub open spec fn inline_sources(sources: Seq<PlaybookVariableSource>) -> nat
    decreases sources.len(),
{
    if sources.len() == 0 {
        0
    } else {
        inline_sources(sources.drop_last()) + match sources.last() {
            PlaybookVariableSource::Inline { .. } => 1nat,
            PlaybookVariableSource::SecretRef { .. } => 0nat,
        }
    }
}

/// The variable sources of a plan.
pub open spec fn variables_of(plan: PlaybookPlan) -> Seq<PlaybookVariableSource> {
    match plan.spec.template.variables {
        Some(variables) => variables@,
        None => Seq::empty(),
    }
}

/// The file sources of a plan.
pub open spec fn files_of(plan: PlaybookPlan) -> Seq<FilesSource> {
    match plan.spec.template.files {
        Some(files) => files@,
        None => Seq::empty(),
    }
}

/// The Secrets a plan takes variables from, in order.
pub fn extract_secret_names_for_variables(plan: &PlaybookPlan) -> (res: Vec<String>)
    ensures
        text::texts(res@) == secret_sources(variables_of(*plan)),
{
    let mut names: Vec<String> = Vec::new();
    assert(text::texts(names@) =~= Seq::<Seq<char>>::empty());
    if let Some(variables) = &plan.spec.template.variables {
        let mut i: usize = 0;
        assert(variables@.take(0) =~= Seq::<PlaybookVariableSource>::empty());
        while i < variables.len()
            invariant
                i <= variables@.len(),
                text::texts(names@) == secret_sources(variables@.take(i as int)),
            decreases variables.len() - i,
        {
            let ghost before = text::texts(names@);
            if let PlaybookVariableSource::SecretRef { secret_ref } = &variables[i] {
                names.push(secret_ref.name.clone());
                assert(text::texts(names@) =~= before.push(secret_ref.name@));
            }
            assert(variables@.take(i + 1).drop_last() =~= variables@.take(i as int));
            i = i + 1;
        }
        assert(variables@.take(i as int) =~= variables@);
    }
    names
}

/// The Secrets among file sources, in order.
pub open spec fn secret_files(sources: Seq<FilesSource>) -> Seq<Seq<char>>
    decreases sources.len(),
{
    if sources.len() == 0 {
        Seq::empty()
    } else {
        let rest = secret_files(sources.drop_last());
        match sources.last() {
            FilesSource::Secret { secret_ref, .. } => rest.push(secret_ref.name@),
            FilesSource::Other { .. } => rest,
        }
    }
}

/// The Secrets a plan takes files from, in order.
pub fn extract_secret_names_for_files(plan: &PlaybookPlan) -> (res: Vec<String>)
    ensures
        text::texts(res@) == secret_files(files_of(*plan)),
{
    let mut names: Vec<String> = Vec::new();
    assert(text::texts(names@) =~= Seq::<Seq<char>>::empty());
    if let Some(files) = &plan.spec.template.files {
        let mut i: usize = 0;
        assert(files@.take(0) =~= Seq::<FilesSource>::empty());
        while i < files.len()
            invariant
                i <= files@.len(),
                text::texts(names@) == secret_files(files@.take(i as int)),
            decreases files.len() - i,
        {
            let ghost before = text::texts(names@);
            if let FilesSource::Secret { secret_ref, .. } = &files[i] {
                names.push(secret_ref.name.clone());
                assert(text::texts(names@) =~= before.push(secret_ref.name@));
            }
            assert(files@.take(i + 1).drop_last() =~= files@.take(i as int));
            i = i + 1;
        }
        assert(files@.take(i as int) =~= files@);
    }
    names
}

// --- volumes a user writes out ---------------------------------------------------------------

/// The name and the canonical JSON text of the volume that a JSON text writes down, or none where it
/// is no volume of any kind the cluster knows.
pub uninterp spec fn typed_volume(json: Seq<char>) -> Option<(Seq<char>, Seq<char>)>;

/// `serde_json::from_str` into a `k8s_openapi` `Volume` and `serde_json::to_string` of it: the
/// volume's name and the volume written out again, or none where the text is not a volume; a
/// function of the text alone.
#[verifier::external_body]
fn read_volume(json: &str) -> (res: Option<(String, String)>)
    ensures
        match res {
            Some((name, text)) => typed_volume(json@) == Some((name@, text@)),
            None => typed_volume(json@) is None,
        },
{
    let volume = serde_json::from_str::<k8s_openapi::api::core::v1::Volume>(json).ok()?;
    let text = serde_json::to_string(&volume).ok()?;
    Some((volume.name, text))
}

/// A JSON object that has a name: the object itself if it has one, and the object with this name
/// put in front otherwise. None where the text is no JSON object, by the keys it has.
pub open spec fn with_name(json: Seq<char>, keys: Option<Seq<Seq<char>>>, name: Seq<char>) -> Option<
    Seq<char>,
> {
    match keys {
        None => None,
        Some(keys) => if keys.contains("name"@) {
            Some(json)
        } else if search::find_char(json, '{') < json.len() {
            Some(
                "{"@ + json::json_member("name"@, Some(name)) + (if keys.len() == 0 {
                    ""@
                } else {
                    ","@
                }) + json.skip(search::find_char(json, '{') + 1),
            )
        } else {
            None
        },
    }
}

/// A JSON object that has a name.
pub fn name_volume(json: &str, keys: &Option<Vec<String>>, name: &str) -> (res: Option<String>)
    ensures
        text::text_of(res) == with_name(
            json@,
            match keys {
                Some(keys) => Some(text::texts(keys@)),
                None => None,
            },
            name@,
        ),
{
    let keys = match keys {
        Some(keys) => keys,
        None => {
            return None;
        },
    };
    if contains_text(keys, "name") {
        return Some(json.to_owned());
    }
    let chars = to_chars(json);
    assert(chars@.skip(0) =~= chars@);
    let open = find_from(&chars, 0, '{');
    if open == chars.len() {
        return None;
    }
    let rest = slice_chars(&chars, open + 1, chars.len());
    assert(rest@ =~= json@.skip(open + 1));
    let entry = member("name", Some(name));
    let separator = if keys.len() == 0 {
        ""
    } else {
        ","
    };
    let start = concat3("{", entry.as_str(), separator);
    Some(concat(start.as_str(), rest.as_str()))
}

/// The volume of a file source: a Secret under the source's name, or whatever else the user wrote,
/// as the volume it is. None where it is none.
pub open spec fn source_volume(source: FilesSource) -> Option<(Seq<char>, SourceView)> {
    match source {
        FilesSource::Secret { name, secret_ref } => Some(
            (
                name@,
                SourceView::Secret { secret_name: secret_ref.name@, default_mode: None, items: None },
            ),
        ),
        FilesSource::Other { name, extra } => match with_name(
            extra.json@,
            ansible_inventory::json_object_keys(extra.json@),
            name@,
        ) {
            Some(named) => match typed_volume(named) {
                Some((volume_name, json)) => Some((volume_name, SourceView::Custom { json })),
                None => None,
            },
            None => None,
        },
    }
}

/// What a file source is called.
pub open spec fn source_name(source: FilesSource) -> Seq<char> {
    match source {
        FilesSource::Secret { name, .. } => name@,
        FilesSource::Other { name, .. } => name@,
    }
}

/// The volume of a file source.
fn file_volume(source: &FilesSource) -> (res: Result<Volume, ReconcileError>)
    ensures
        match res {
            Ok(volume) => source_volume(*source) == Some(volume@),
            Err(error) => source_volume(*source) is None && (error matches
                ReconcileError::InvalidVolume { name } && name@ == source_name(*source)),
        },
{
    match source {
        FilesSource::Secret { name, secret_ref } => Ok(
            Volume {
                name: name.clone(),
                source: VolumeSource::Secret {
                    secret_name: secret_ref.name.clone(),
                    default_mode: None,
                    items: None,
                },
            },
        ),
        FilesSource::Other { name, extra } => {
            let keys = object_keys(extra.json.as_str());
            let volume = match name_volume(extra.json.as_str(), &keys, name.as_str()) {
                Some(named) => read_volume(named.as_str()),
                None => None,
            };
            match volume {
                Some((volume_name, json)) => Ok(
                    Volume { name: volume_name, source: VolumeSource::Custom { json } },
                ),
                None => Err(ReconcileError::InvalidVolume { name: name.clone() }),
            }
        },
    }
}

/// What came of the volume of a file source.
pub open spec fn volume_outcome(res: Result<Volume, ReconcileError>, source: FilesSource) -> bool {
    match res {
        Ok(volume) => source_volume(source) == Some(volume@),
        Err(error) => source_volume(source) is None && (error matches ReconcileError::InvalidVolume {
            name,
        } && name@ == source_name(source)),
    }
}

/// The volumes of a plan's file sources, one for one: each is a volume, or is refused by itself.
pub fn extract_file_volumes(plan: &PlaybookPlan) -> (res: Vec<Result<Volume, ReconcileError>>)
    ensures
        res@.len() == files_of(*plan).len(),
        forall|i: int|
            0 <= i < res@.len() ==> volume_outcome(#[trigger] res@[i], files_of(*plan)[i]),
{
    let mut volumes: Vec<Result<Volume, ReconcileError>> = Vec::new();
    if let Some(files) = &plan.spec.template.files {
        let mut i: usize = 0;
        while i < files.len()
            invariant
                i <= files@.len(),
                files@ == files_of(*plan),
                volumes@.len() == i,
                forall|j: int|
                    0 <= j < i ==> volume_outcome(#[trigger] volumes@[j], files_of(*plan)[j]),
            decreases files.len() - i,
        {
            volumes.push(file_volume(&files[i]));
            i = i + 1;
        }
    }
    volumes
}

/// The volumes of file sources, or none where one of them is no volume.
pub open spec fn file_volumes(sources: Seq<FilesSource>) -> Option<Seq<(Seq<char>, SourceView)>>
    decreases sources.len(),
{
    if sources.len() == 0 {
        Some(Seq::empty())
    } else {
        match (file_volumes(sources.drop_last()), source_volume(sources.last())) {
            (Some(volumes), Some(volume)) => Some(volumes.push(volume)),
            _ => None,
        }
    }
}

/// The first file source that is no volume.
pub open spec fn first_invalid(sources: Seq<FilesSource>) -> Option<Seq<char>>
    decreases sources.len(),
{
    if sources.len() == 0 {
        None
    } else if first_invalid(sources.drop_last()) is Some {
        first_invalid(sources.drop_last())
    } else if source_volume(sources.last()) is None {
        Some(source_name(sources.last()))
    } else {
        None
    }
}

proof fn lemma_first_invalid_stays(sources: Seq<FilesSource>, n: int)
    requires
        0 <= n <= sources.len(),
        first_invalid(sources.take(n)) is Some,
    ensures
        first_invalid(sources) == first_invalid(sources.take(n)),
        file_volumes(sources) is None,
    decreases sources.len() - n,
{
    if n == sources.len() {
        assert(sources.take(n) =~= sources);
        lemma_invalid_means_none(sources);
    } else {
        assert(sources.take(n + 1).drop_last() =~= sources.take(n));
        lemma_first_invalid_stays(sources, n + 1);
    }
}

proof fn lemma_invalid_means_none(sources: Seq<FilesSource>)
    ensures
        first_invalid(sources) is Some <==> file_volumes(sources) is None,
    decreases sources.len(),
{
    if sources.len() > 0 {
        lemma_invalid_means_none(sources.drop_last());
    }
}

// --- the command -----------------------------------------------------------------------------

/// The verbosity flag of a plan: none by default, and never beyond the ceiling.
pub open spec fn verbosity_flag(verbosity: Option<u8>) -> Seq<Seq<char>> {
    match verbosity {
        Some(level) => if level == 0 {
            Seq::empty()
        } else {
            let count = if level < MAX_VERBOSITY {
                level as nat
            } else {
                MAX_VERBOSITY as nat
            };
            seq!["-"@ + Seq::new(count, |i: int| 'v')]
        },
        None => Seq::empty(),
    }
}

/// The file a plan's own variables are rendered to.
pub open spec fn static_variables_file(index: nat) -> Seq<char> {
    "@static-variables-"@ + numerals::numeral(index, 10) + ".yml"@
}

/// Where the variables of a Secret are seen.
pub open spec fn secret_variables_file(secret: Seq<char>) -> Seq<char> {
    "@"@ + WORKSPACE_MOUNT_PATH@ + "/vars/"@ + secret + "/variables.yaml"@
}

/// One flag for each of these files, in order.
pub open spec fn extra_vars(files: Seq<Seq<char>>) -> Seq<Seq<char>>
    decreases files.len(),
{
    if files.len() == 0 {
        Seq::empty()
    } else {
        extra_vars(files.drop_last()).push("--extra-vars"@).push(files.last())
    }
}

/// The files a plan's own variables are rendered to.
pub open spec fn static_files(count: nat) -> Seq<Seq<char>> {
    Seq::new(count, |i: int| static_variables_file(i as nat))
}

/// The files of the variables of some Secrets.
pub open spec fn secret_files_seen(secrets: Seq<Seq<char>>) -> Seq<Seq<char>> {
    secrets.map_values(|secret: Seq<char>| secret_variables_file(secret))
}

/// The command a run executes: the playbook against the whole inventory, with the plan's own
/// variables and then those of its Secrets. How each host is reached is the inventory's business.
pub open spec fn ansible_command(plan: PlaybookPlan, secrets: Seq<Seq<char>>) -> Seq<Seq<char>> {
    seq!["ansible-playbook"@] + verbosity_flag(plan.spec.verbosity) + extra_vars(
        static_files(inline_sources(variables_of(plan))),
    ) + extra_vars(secret_files_seen(secrets)) + seq!["-i"@, "inventory.yml"@, "playbook.yml"@]
}

fn count_inline(plan: &PlaybookPlan) -> (res: usize)
    ensures
        res == inline_sources(variables_of(*plan)),
{
    let mut count: usize = 0;
    if let Some(variables) = &plan.spec.template.variables {
        let mut i: usize = 0;
        assert(variables@.take(0) =~= Seq::<PlaybookVariableSource>::empty());
        while i < variables.len()
            invariant
                count <= i <= variables@.len(),
                count == inline_sources(variables@.take(i as int)),
            decreases variables.len() - i,
        {
            if let PlaybookVariableSource::Inline { .. } = &variables[i] {
                count = count + 1;
            }
            assert(variables@.take(i + 1).drop_last() =~= variables@.take(i as int));
            i = i + 1;
        }
        assert(variables@.take(i as int) =~= variables@);
    }
    count
}

fn push_extra_vars(command: &mut Vec<String>, file: String)
    ensures
        text::texts(final(command)@) == text::texts(old(command)@).push("--extra-vars"@).push(file@),
{
    let ghost before = text::texts(command@);
    command.push("--extra-vars".to_owned());
    command.push(file);
    assert(text::texts(command@) =~= before.push("--extra-vars"@).push(file@));
}

/// The command a run executes.
pub fn render_ansible_command(plan: &PlaybookPlan, extra_vars_filepaths: &[String]) -> (res: Vec<
    String,
>)
    ensures
        text::texts(res@) == ansible_command(*plan, text::texts(extra_vars_filepaths@)),
{
    let mut command: Vec<String> = vec!["ansible-playbook".to_owned()];
    if let Some(level) = plan.spec.verbosity {
        if level > 0 {
            let count: u8 = if level < MAX_VERBOSITY {
                level
            } else {
                MAX_VERBOSITY
            };
            let mut flag = "-".to_owned();
            let mut i: u8 = 0;
            assert(flag@ =~= "-"@ + Seq::new(0, |i: int| 'v'));
            while i < count
                invariant
                    i <= count,
                    flag@ == "-"@ + Seq::new(i as nat, |i: int| 'v'),
                decreases count - i,
            {
                flag.push('v');
                assert(flag@ =~= "-"@ + Seq::new((i + 1) as nat, |i: int| 'v'));
                i = i + 1;
            }
            command.push(flag);
        }
    }
    let ghost head = seq!["ansible-playbook"@] + verbosity_flag(plan.spec.verbosity);
    assert(text::texts(command@) =~= head);
    let count = count_inline(plan);
    let mut i: usize = 0;
    assert(head + extra_vars(static_files(0)) =~= head);
    while i < count
        invariant
            i <= count,
            text::texts(command@) == head + extra_vars(static_files(i as nat)),
        decreases count - i,
    {
        let index = decimal(i as u64);
        let file = concat3("@static-variables-", index.as_str(), ".yml");
        let ghost added = file@;
        push_extra_vars(&mut command, file);
        proof {
            let longer = static_files((i + 1) as nat);
            assert(longer.drop_last() =~= static_files(i as nat));
            assert(longer.last() == added);
            assert(text::texts(command@) =~= head + extra_vars(longer));
        }
        i = i + 1;
    }
    let ghost middle = text::texts(command@);
    let ghost secrets = text::texts(extra_vars_filepaths@);
    let mut j: usize = 0;
    assert(secret_files_seen(secrets.take(0)) =~= Seq::<Seq<char>>::empty());
    assert(middle + extra_vars(secret_files_seen(secrets.take(0))) =~= middle);
    while j < extra_vars_filepaths.len()
        invariant
            j <= extra_vars_filepaths@.len(),
            secrets == text::texts(extra_vars_filepaths@),
            text::texts(command@) == middle + extra_vars(secret_files_seen(secrets.take(j as int))),
        decreases extra_vars_filepaths.len() - j,
    {
        let start = concat3("@", WORKSPACE_MOUNT_PATH, "/vars/");
        let file = concat3(start.as_str(), extra_vars_filepaths[j].as_str(), "/variables.yaml");
        let ghost added = file@;
        push_extra_vars(&mut command, file);
        proof {
            let longer = secret_files_seen(secrets.take(j + 1));
            assert(longer.drop_last() =~= secret_files_seen(secrets.take(j as int)));
            assert(longer.last() == added);
            assert(text::texts(command@) =~= middle + extra_vars(longer));
        }
        j = j + 1;
    }
    assert(secrets.take(j as int) =~= secrets);
    let ghost before = text::texts(command@);
    command.push("-i".to_owned());
    command.push("inventory.yml".to_owned());
    command.push("playbook.yml".to_owned());
    assert(text::texts(command@) =~= before + seq!["-i"@, "inventory.yml"@, "playbook.yml"@]);
    command
}

// --- the skeleton ----------------------------------------------------------------------------

/// The volumes of the variables of some Secrets: one file of each.
pub open spec fn variable_volumes(secrets: Seq<Seq<char>>) -> Seq<(Seq<char>, SourceView)> {
    secrets.map_values(
        |secret: Seq<char>|
            (
                secret,
                SourceView::Secret {
                    secret_name: secret,
                    default_mode: Some(0o400i32),
                    items: Some(seq![("variables.yaml"@, "variables.yaml"@)]),
                },
            ),
    )
}

/// Where the variables of some Secrets are mounted.
pub open spec fn variable_mounts(secrets: Seq<Seq<char>>) -> Seq<
    (Seq<char>, Seq<char>, Option<bool>),
> {
    secrets.map_values(
        |secret: Seq<char>|
            (secret, WORKSPACE_MOUNT_PATH@ + "/vars/"@ + secret, None::<bool>),
    )
}

/// Where extra files are mounted.
pub open spec fn file_mounts(volumes: Seq<(Seq<char>, SourceView)>) -> Seq<
    (Seq<char>, Seq<char>, Option<bool>),
> {
    volumes.map_values(
        |volume: (Seq<char>, SourceView)|
            (volume.0, WORKSPACE_MOUNT_PATH@ + "/files/"@ + volume.0, None::<bool>),
    )
}

/// The volumes every run of a plan has: the workspace, the variables, the extra files, and a place
/// for collections where the plan asks for some.
pub open spec fn plan_volumes(
    plan: PlaybookPlan,
    files: Seq<(Seq<char>, SourceView)>,
    with_requirements: bool,
) -> Seq<(Seq<char>, SourceView)> {
    seq![
        (
            "playbook"@,
            SourceView::Secret {
                secret_name: plan.metadata.name->0@,
                default_mode: None,
                items: None,
            },
        ),
    ] + variable_volumes(secret_sources(variables_of(plan))) + files + if with_requirements {
        seq![("collections"@, SourceView::EmptyDir)]
    } else {
        Seq::empty()
    }
}

/// Where the volumes of a plan are mounted.
pub open spec fn plan_mounts(
    plan: PlaybookPlan,
    files: Seq<(Seq<char>, SourceView)>,
    with_requirements: bool,
) -> Seq<(Seq<char>, Seq<char>, Option<bool>)> {
    seq![("playbook"@, WORKSPACE_MOUNT_PATH@, None::<bool>)] + variable_mounts(
        secret_sources(variables_of(plan)),
    ) + file_mounts(files) + if with_requirements {
        seq![("collections"@, "/etc/ansible/collections"@, None::<bool>)]
    } else {
        Seq::empty()
    }
}

/// What a container of the run may do: what the plan says, and nothing where it says nothing.
pub open spec fn security_of(security: Option<SecurityContext>, plan: PlaybookPlan) -> bool {
    match (security, plan.spec.security_context) {
        (Some(SecurityContext::FromPlan(own)), Some(wanted)) => own == wanted,
        (None, None) => true,
        _ => false,
    }
}

/// The container that runs the playbook, its mounts and variables aside. The recap comes back as its
/// termination message.
pub open spec fn playbook_container(c: Container, plan: PlaybookPlan) -> bool {
    &&& c.name@ == ANSIBLE_CONTAINER_NAME@
    &&& c.image@ == plan.spec.image@
    &&& text::text_of(c.working_dir) == Some(WORKSPACE_MOUNT_PATH@)
    &&& text::texts(c.command@) == ansible_command(plan, secret_sources(variables_of(plan)))
    &&& text::text_of(c.termination_message_path) == Some("/dev/termination-log"@)
    &&& text::text_of(c.termination_message_policy) == Some("File"@)
    &&& security_of(c.security_context, plan)
    &&& c.readiness_probe is None
}

/// The container that installs what the plan requires.
pub open spec fn installer_container(
    c: Container,
    plan: PlaybookPlan,
    mounts: Seq<(Seq<char>, Seq<char>, Option<bool>)>,
) -> bool {
    &&& c.name@ == "download-collections"@
    &&& c.image@ == plan.spec.image@
    &&& text::text_of(c.working_dir) == Some(WORKSPACE_MOUNT_PATH@)
    &&& text::texts(c.command@) == seq![
        "ansible-galaxy"@,
        "install"@,
        "-r"@,
        "requirements.yml"@,
    ]
    &&& workloads::mount_views(c.volume_mounts@) == mounts
    &&& c.env@.len() == 0
    &&& security_of(c.security_context, plan)
    &&& c.readiness_probe is None
    &&& c.termination_message_path is None
    &&& c.termination_message_policy is None
}

/// An owner reference to a plan.
pub open spec fn refers_to_plan(owner: OwnerReference, plan: PlaybookPlan, controller: Option<bool>) -> bool {
    &&& owner.api_version@ == PLAN_API_VERSION@
    &&& owner.kind@ == PLAN_KIND@
    &&& owner.name@ == plan.metadata.name->0@
    &&& owner.uid@ == plan.metadata.uid->0@
    &&& owner.controller == controller
}

fn plan_reference(name: &str, uid: &str, controller: Option<bool>) -> (res: OwnerReference)
    ensures
        res.api_version@ == PLAN_API_VERSION@,
        res.kind@ == PLAN_KIND@,
        res.name@ == name@,
        res.uid@ == uid@,
        res.controller == controller,
{
    OwnerReference {
        api_version: PLAN_API_VERSION.to_owned(),
        kind: PLAN_KIND.to_owned(),
        name: name.to_owned(),
        uid: uid.to_owned(),
        controller,
    }
}

/// What every Job of a plan has, its name, labels, mounts, environment and placement aside: it is
/// owned by the plan, never retried, kept for the plan's time to live, and its pod carries an API
/// token only for an account the plan names.
pub open spec fn job_frame(
    job: Job,
    plan: PlaybookPlan,
    files: Seq<(Seq<char>, SourceView)>,
    with_requirements: bool,
) -> bool {
    let spec = job.template.spec;
    &&& job.metadata.owner_references@.len() == 1
    &&& refers_to_plan(job.metadata.owner_references@[0], plan, None)
    &&& job.backoff_limit == Some(0i32)
    &&& job.ttl_seconds_after_finished == Some(job_ttl(plan))
    &&& spec.containers@.len() == 1
    &&& playbook_container(spec.containers@[0], plan)
    &&& if with_requirements {
        &&& spec.init_containers@.len() == 1
        &&& installer_container(
            spec.init_containers@[0],
            plan,
            plan_mounts(plan, files, with_requirements),
        )
    } else {
        spec.init_containers@.len() == 0
    }
    &&& spec.restart_policy@ == "Never"@
    &&& spec.service_account_name == plan.spec.service_account_name
    &&& spec.automount_service_account_token == (plan.spec.service_account_name is Some)
    &&& !spec.host_pid
    &&& !spec.host_network
    &&& !spec.host_ipc
    &&& spec.node_selector@ == Map::<Seq<char>, String>::empty()
    &&& spec.tolerations@.len() == 0
}

fn security_context(plan: &PlaybookPlan) -> (res: Option<SecurityContext>)
    ensures
        security_of(res, *plan),
{
    match copy_variables(&plan.spec.security_context) {
        Some(context) => Some(SecurityContext::FromPlan(context)),
        None => None,
    }
}

fn add_volume(volumes: &mut Vec<Volume>, mounts: &mut Vec<VolumeMount>, volume: Volume, path: String)
    ensures
        workloads::volume_views(final(volumes)@) == workloads::volume_views(old(volumes)@).push(
            volume@,
        ),
        workloads::mount_views(final(mounts)@) == workloads::mount_views(old(mounts)@).push(
            (volume.name@, path@, None::<bool>),
        ),
{
    let ghost volumes_before = workloads::volume_views(volumes@);
    let ghost mounts_before = workloads::mount_views(mounts@);
    mounts.push(VolumeMount { name: volume.name.clone(), mount_path: path, read_only: None });
    volumes.push(volume);
    assert(workloads::volume_views(volumes@) =~= volumes_before.push(volume@));
    assert(workloads::mount_views(mounts@) =~= mounts_before.push(
        (volume.name@, path@, None::<bool>),
    ));
}

fn variables_volume(secret: &str) -> (res: Volume)
    ensures
        res@ == (
            secret@,
            SourceView::Secret {
                secret_name: secret@,
                default_mode: Some(0o400i32),
                items: Some(seq![("variables.yaml"@, "variables.yaml"@)]),
            },
        ),
{
    let items: Vec<KeyToPath> = vec![
        KeyToPath { key: "variables.yaml".to_owned(), path: "variables.yaml".to_owned() },
    ];
    assert(items@.map_values(|i: KeyToPath| (i.key@, i.path@)) =~= seq![
        ("variables.yaml"@, "variables.yaml"@),
    ]);
    Volume {
        name: secret.to_owned(),
        source: VolumeSource::Secret {
            secret_name: secret.to_owned(),
            default_mode: Some(0o400i32),
            items: Some(items),
        },
    }
}

/// The volumes every run of a plan has, and where they are mounted.
fn plan_volumes_and_mounts(plan: &PlaybookPlan, name: &str, secrets: &[String], with_requirements: bool) -> (
res: Result<(Vec<Volume>, Vec<VolumeMount>), ReconcileError>)
    requires
        text::text_of(plan.metadata.name) == Some(name@),
        text::texts(secrets@) == secret_sources(variables_of(*plan)),
    ensures
        match res {
            Ok((volumes, mounts)) => {
                &&& file_volumes(files_of(*plan)) matches Some(files)
                &&& workloads::volume_views(volumes@) == plan_volumes(*plan, files, with_requirements)
                &&& workloads::mount_views(mounts@) == plan_mounts(*plan, files, with_requirements)
            },
            Err(error) => file_volumes(files_of(*plan)) is None && (error matches
                ReconcileError::InvalidVolume { name } && Some(name@) == first_invalid(
                files_of(*plan),
            )),
        },
{
    let ghost named = text::texts(secrets@);
    let ghost sources = files_of(*plan);
    let ghost first_volume = (
        "playbook"@,
        SourceView::Secret { secret_name: name@, default_mode: None, items: None },
    );
    let ghost first_mount = ("playbook"@, WORKSPACE_MOUNT_PATH@, None::<bool>);
    let mut volumes: Vec<Volume> = Vec::new();
    let mut mounts: Vec<VolumeMount> = Vec::new();
    let playbook = Volume {
        name: "playbook".to_owned(),
        source: VolumeSource::Secret {
            secret_name: name.to_owned(),
            default_mode: None,
            items: None,
        },
    };
    add_volume(&mut volumes, &mut mounts, playbook, WORKSPACE_MOUNT_PATH.to_owned());
    let mut i: usize = 0;
    assert(workloads::volume_views(volumes@) =~= seq![first_volume] + variable_volumes(
        named.take(0),
    ));
    assert(workloads::mount_views(mounts@) =~= seq![first_mount] + variable_mounts(named.take(0)));
    while i < secrets.len()
        invariant
            i <= secrets@.len(),
            named == text::texts(secrets@),
            workloads::volume_views(volumes@) == seq![first_volume] + variable_volumes(
                named.take(i as int),
            ),
            workloads::mount_views(mounts@) == seq![first_mount] + variable_mounts(
                named.take(i as int),
            ),
        decreases secrets.len() - i,
    {
        let secret = secrets[i].as_str();
        let path = concat3(WORKSPACE_MOUNT_PATH, "/vars/", secret);
        add_volume(&mut volumes, &mut mounts, variables_volume(secret), path);
        proof {
            assert(named.take(i + 1) =~= named.take(i as int).push(named[i as int]));
            assert(workloads::volume_views(volumes@) =~= seq![first_volume] + variable_volumes(
                named.take(i + 1),
            ));
            assert(workloads::mount_views(mounts@) =~= seq![first_mount] + variable_mounts(
                named.take(i + 1),
            ));
        }
        i = i + 1;
    }
    assert(named.take(i as int) =~= named);
    let ghost volumes_so_far = workloads::volume_views(volumes@);
    let ghost mounts_so_far = workloads::mount_views(mounts@);
    let ghost mut files: Seq<(Seq<char>, SourceView)> = Seq::empty();
    assert(volumes_so_far + files =~= volumes_so_far);
    assert(mounts_so_far + file_mounts(files) =~= mounts_so_far);
    if let Some(listed) = &plan.spec.template.files {
        let mut j: usize = 0;
        assert(listed@.take(0) =~= Seq::<FilesSource>::empty());
        while j < listed.len()
            invariant
                j <= listed@.len(),
                listed@ == sources,
                sources == files_of(*plan),
                file_volumes(sources.take(j as int)) == Some(files),
                workloads::volume_views(volumes@) == volumes_so_far + files,
                workloads::mount_views(mounts@) == mounts_so_far + file_mounts(files),
            decreases listed.len() - j,
        {
            assert(sources.take(j + 1).drop_last() =~= sources.take(j as int));
            match file_volume(&listed[j]) {
                Ok(volume) => {
                    let path = concat3(WORKSPACE_MOUNT_PATH, "/files/", volume.name.as_str());
                    let ghost added = volume@;
                    add_volume(&mut volumes, &mut mounts, volume, path);
                    proof {
                        let longer = files.push(added);
                        assert(workloads::volume_views(volumes@) =~= volumes_so_far + longer);
                        assert(workloads::mount_views(mounts@) =~= mounts_so_far + file_mounts(
                            longer,
                        ));
                        files = longer;
                    }
                },
                Err(error) => {
                    proof {
                        lemma_invalid_means_none(sources.take(j as int));
                        lemma_first_invalid_stays(sources, j + 1);
                    }
                    return Err(error);
                },
            }
            j = j + 1;
        }
        assert(sources.take(j as int) =~= sources);
    }
    if with_requirements {
        let collections = Volume {
            name: "collections".to_owned(),
            source: VolumeSource::EmptyDir,
        };
        add_volume(
            &mut volumes,
            &mut mounts,
            collections,
            "/etc/ansible/collections".to_owned(),
        );
    }
    assert(workloads::volume_views(volumes@) =~= plan_volumes(*plan, files, with_requirements));
    assert(workloads::mount_views(mounts@) =~= plan_mounts(*plan, files, with_requirements));
    Ok((volumes, mounts))
}

fn build_installer(plan: &PlaybookPlan, mounts: &[VolumeMount]) -> (res: Container)
    ensures
        installer_container(res, *plan, workloads::mount_views(mounts@)),
{
    let command: Vec<String> = vec![
        "ansible-galaxy".to_owned(),
        "install".to_owned(),
        "-r".to_owned(),
        "requirements.yml".to_owned(),
    ];
    assert(text::texts(command@) =~= seq![
        "ansible-galaxy"@,
        "install"@,
        "-r"@,
        "requirements.yml"@,
    ]);
    Container {
        name: "download-collections".to_owned(),
        image: plan.spec.image.clone(),
        command,
        working_dir: Some(WORKSPACE_MOUNT_PATH.to_owned()),
        volume_mounts: copy_mounts(mounts),
        env: Vec::new(),
        security_context: security_context(plan),
        readiness_probe: None,
        termination_message_path: None,
        termination_message_policy: None,
    }
}

/// A Job with everything it takes to run a plan's playbook, and nothing about how hosts are
/// reached.
pub fn create_job_skeleton(plan: &PlaybookPlan, with_requirements: bool) -> (res: Result<
    Job,
    ReconcileError,
>)
    ensures
        match res {
            Ok(job) => {
                &&& plan.metadata.name is Some
                &&& plan.metadata.uid is Some
                &&& file_volumes(files_of(*plan)) matches Some(files)
                &&& job_frame(job, *plan, files, with_requirements)
                &&& workloads::volume_views(job.template.spec.volumes@) == plan_volumes(
                    *plan,
                    files,
                    with_requirements,
                )
                &&& workloads::mount_views(job.template.spec.containers@[0].volume_mounts@)
                    == plan_mounts(*plan, files, with_requirements)
                &&& job.template.spec.containers@[0].env@.len() == 0
                &&& job.template.spec.preferred_nodes@.len() == 0
                &&& job.metadata.name is None
                &&& job.metadata.namespace is None
                &&& job.metadata.unstamped()
                &&& job.metadata.resource_version is None
                &&& job.metadata.labels@ == Map::<Seq<char>, String>::empty()
                &&& job.metadata.annotations@ == Map::<Seq<char>, String>::empty()
                &&& job.template.metadata.blank()
            },
            Err(error) => skeleton_refused(error, *plan),
        },
{
    let name: &str = match &plan.metadata.name {
        Some(name) => name.as_str(),
        None => {
            return Err(
                ReconcileError::PreconditionFailed("expected .metadata.name in PlaybookPlan"),
            );
        },
    };
    let uid: &str = match &plan.metadata.uid {
        Some(uid) => uid.as_str(),
        None => {
            return Err(
                ReconcileError::PreconditionFailed("expected .metadata.uid in PlaybookPlan"),
            );
        },
    };
    let secrets = extract_secret_names_for_variables(plan);
    let (volumes, mounts) = match plan_volumes_and_mounts(plan, name, &secrets, with_requirements) {
        Ok(both) => both,
        Err(error) => {
            return Err(error);
        },
    };
    let mut init_containers: Vec<Container> = Vec::new();
    if with_requirements {
        init_containers.push(build_installer(plan, &mounts));
    }
    let main_container = Container {
        name: ANSIBLE_CONTAINER_NAME.to_owned(),
        image: plan.spec.image.clone(),
        command: render_ansible_command(plan, &secrets),
        working_dir: Some(WORKSPACE_MOUNT_PATH.to_owned()),
        volume_mounts: mounts,
        env: Vec::new(),
        security_context: security_context(plan),
        readiness_probe: None,
        termination_message_path: Some("/dev/termination-log".to_owned()),
        termination_message_policy: Some("File".to_owned()),
    };
    let mut metadata = ObjectMeta::default();
    metadata.owner_references = vec![plan_reference(name, uid, None)];
    Ok(
        Job {
            metadata,
            backoff_limit: Some(0),
            ttl_seconds_after_finished: Some(effective_job_ttl(plan)),
            template: PodTemplate {
                metadata: ObjectMeta::default(),
                spec: PodSpec {
                    containers: vec![main_container],
                    init_containers,
                    volumes,
                    restart_policy: "Never".to_owned(),
                    service_account_name: clone_optional(&plan.spec.service_account_name),
                    automount_service_account_token: plan.spec.service_account_name.is_some(),
                    host_pid: false,
                    host_network: false,
                    host_ipc: false,
                    node_selector: textmap::TextMap::new(),
                    tolerations: Vec::new(),
                    preferred_nodes: Vec::new(),
                },
            },
        },
    )
}

/// Why a plan has no Job: it lacks a name or a UID, or one of its file sources is no volume.
pub open spec fn skeleton_refused(error: ReconcileError, plan: PlaybookPlan) -> bool {
    if plan.metadata.name is None {
        error == ReconcileError::PreconditionFailed("expected .metadata.name in PlaybookPlan")
    } else if plan.metadata.uid is None {
        error == ReconcileError::PreconditionFailed("expected .metadata.uid in PlaybookPlan")
    } else {
        &&& file_volumes(files_of(plan)) is None
        &&& error matches ReconcileError::InvalidVolume { name } && Some(name@) == first_invalid(
            files_of(plan),
        )
    }
}

// --- how hosts are reached -------------------------------------------------------------------

/// Whether some group is reached through proxies.
pub open spec fn uses_managed_ssh(groups: Seq<ResolvedInventoryGroup>) -> bool {
    exists|i: int| 0 <= i < groups.len() && (#[trigger] groups[i]) is ManagedSsh
}

/// Whether some group is reached through proxies.
pub fn has_managed_ssh_group(groups: &[ResolvedInventoryGroup]) -> (res: bool)
    ensures
        res == uses_managed_ssh(groups@),
{
    let mut i: usize = 0;
    while i < groups.len()
        invariant
            i <= groups@.len(),
            forall|j: int| 0 <= j < i ==> !((#[trigger] groups@[j]) is ManagedSsh),
        decreases groups.len() - i,
    {
        if let ResolvedInventoryGroup::ManagedSsh { .. } = &groups[i] {
            return true;
        }
        i = i + 1;
    }
    false
}

/// The `StaticInventory` resources some groups come from, each once, with how the first group of each
/// logs in.
pub open spec fn ssh_configs_of(groups: Seq<ResolvedInventoryGroup>) -> Seq<(Seq<char>, SshConfig)>
    decreases groups.len(),
{
    if groups.len() == 0 {
        Seq::empty()
    } else {
        let rest = ssh_configs_of(groups.drop_last());
        match groups.last() {
            ResolvedInventoryGroup::Ssh { static_inventory_name, config, .. } => {
                if listed_inventory(rest, static_inventory_name@) {
                    rest
                } else {
                    rest.push((static_inventory_name@, config))
                }
            },
            ResolvedInventoryGroup::ManagedSsh { .. } => rest,
        }
    }
}

/// Whether an inventory is among those already listed.
pub open spec fn listed_inventory(configs: Seq<(Seq<char>, SshConfig)>, name: Seq<char>) -> bool {
    exists|i: int| 0 <= i < configs.len() && (#[trigger] configs[i]).0 == name
}

/// The inventories by name, and how they log in.
pub open spec fn named_configs(configs: Seq<(String, SshConfig)>) -> Seq<(Seq<char>, SshConfig)> {
    configs.map_values(|c: (String, SshConfig)| (c.0@, c.1))
}

/// The `StaticInventory` resources a run targets, each once, with how it logs in: the first group of
/// each decides.
pub fn distinct_static_inventory_ssh_configs(groups: &[ResolvedInventoryGroup]) -> (res: Vec<
    (String, SshConfig),
>)
    ensures
        named_configs(res@) == ssh_configs_of(groups@),
{
    let mut configs: Vec<(String, SshConfig)> = Vec::new();
    let mut seen: Vec<String> = Vec::new();
    let mut i: usize = 0;
    assert(groups@.take(0) =~= Seq::<ResolvedInventoryGroup>::empty());
    assert(named_configs(configs@) =~= Seq::<(Seq<char>, SshConfig)>::empty());
    while i < groups.len()
        invariant
            i <= groups@.len(),
            named_configs(configs@) == ssh_configs_of(groups@.take(i as int)),
            seen@.len() == configs@.len(),
            forall|j: int|
                0 <= j < seen@.len() ==> text::texts(seen@)[j] == (#[trigger] named_configs(
                    configs@,
                )[j]).0,
        decreases groups.len() - i,
    {
        let ghost before = named_configs(configs@);
        let ghost names_before = text::texts(seen@);
        assert(groups@.take(i + 1).drop_last() =~= groups@.take(i as int));
        if let ResolvedInventoryGroup::Ssh { static_inventory_name, config, .. } = &groups[i] {
            let known = contains_text(&seen, static_inventory_name.as_str());
            proof {
                if known {
                    let k = choose|k: int|
                        0 <= k < names_before.len() && names_before[k] == static_inventory_name@;
                    assert(before[k].0 == static_inventory_name@);
                }
                if listed_inventory(before, static_inventory_name@) {
                    let k = choose|k: int|
                        0 <= k < before.len() && (#[trigger] before[k]).0 == static_inventory_name@;
                    assert(names_before[k] == static_inventory_name@);
                }
            }
            if !known {
                seen.push(static_inventory_name.clone());
                configs.push((static_inventory_name.clone(), config.copy()));
                assert(named_configs(configs@) =~= before.push((static_inventory_name@, *config)));
                assert(text::texts(seen@) =~= names_before.push(static_inventory_name@));
            }
        }
        i = i + 1;
    }
    assert(groups@.take(i as int) =~= groups@);
    configs
}

/// What configuring how hosts are reached leaves alone: everything but the volumes, the main
/// container's mounts and environment, and the preferred nodes.
pub open spec fn same_but_access(a: Job, b: Job) -> bool {
    &&& a.metadata == b.metadata
    &&& a.backoff_limit == b.backoff_limit
    &&& a.ttl_seconds_after_finished == b.ttl_seconds_after_finished
    &&& a.template.metadata == b.template.metadata
    &&& a.template.spec.init_containers == b.template.spec.init_containers
    &&& a.template.spec.restart_policy == b.template.spec.restart_policy
    &&& a.template.spec.service_account_name == b.template.spec.service_account_name
    &&& a.template.spec.automount_service_account_token
        == b.template.spec.automount_service_account_token
    &&& a.template.spec.host_pid == b.template.spec.host_pid
    &&& a.template.spec.host_network == b.template.spec.host_network
    &&& a.template.spec.host_ipc == b.template.spec.host_ipc
    &&& a.template.spec.node_selector == b.template.spec.node_selector
    &&& a.template.spec.tolerations == b.template.spec.tolerations
    &&& a.template.spec.containers@.len() >= 1
    &&& a.template.spec.containers@.len() == b.template.spec.containers@.len()
    &&& a.template.spec.containers@.skip(1) == b.template.spec.containers@.skip(1)
    &&& same_but_mounts(a.template.spec.containers@[0], b.template.spec.containers@[0])
}

/// Whether two containers differ at most in mounts and environment.
pub open spec fn same_but_mounts(a: Container, b: Container) -> bool {
    &&& a.name == b.name
    &&& a.image == b.image
    &&& a.command == b.command
    &&& a.working_dir == b.working_dir
    &&& a.security_context == b.security_context
    &&& a.readiness_probe == b.readiness_probe
    &&& a.termination_message_path == b.termination_message_path
    &&& a.termination_message_policy == b.termination_message_policy
}

/// The volumes of a Job.
pub open spec fn job_volumes(job: Job) -> Seq<(Seq<char>, SourceView)> {
    workloads::volume_views(job.template.spec.volumes@)
}

/// The mounts of a Job's main container.
pub open spec fn job_mounts(job: Job) -> Seq<(Seq<char>, Seq<char>, Option<bool>)> {
    workloads::mount_views(job.template.spec.containers@[0].volume_mounts@)
}

/// The environment of a Job's main container.
pub open spec fn job_env(job: Job) -> Seq<(Seq<char>, Seq<char>)> {
    job.template.spec.containers@[0].env@.map_values(|e: EnvVar| (e.name@, e.value@))
}

/// A Secret readable only by the user the run executes as.
pub open spec fn credential(secret: Seq<char>) -> SourceView {
    SourceView::Secret { secret_name: secret, default_mode: Some(0o400i32), items: None }
}

/// Mounts a credential into the main container.
fn mount_credential(job: &mut Job, name: String, secret: &str, path: String)
    requires
        old(job).template.spec.containers@.len() >= 1,
    ensures
        same_but_access(*old(job), *final(job)),
        job_volumes(*final(job)) == job_volumes(*old(job)).push((name@, credential(secret@))),
        job_mounts(*final(job)) == job_mounts(*old(job)).push((name@, path@, None::<bool>)),
        job_env(*final(job)) == job_env(*old(job)),
        final(job).template.spec.preferred_nodes == old(job).template.spec.preferred_nodes,
{
    let ghost volumes_before = job_volumes(*job);
    let ghost mounts_before = job_mounts(*job);
    let mount = VolumeMount { name: name.clone(), mount_path: path, read_only: None };
    let volume = Volume {
        name,
        source: VolumeSource::Secret {
            secret_name: secret.to_owned(),
            default_mode: Some(0o400),
            items: None,
        },
    };
    job.template.spec.volumes.push(volume);
    job.template.spec.containers[0].volume_mounts.push(mount);
    assert(job_volumes(*job) =~= volumes_before.push((name@, credential(secret@))));
    assert(job_mounts(*job) =~= mounts_before.push((name@, path@, None::<bool>)));
    assert(job.template.spec.containers@.skip(1) =~= old(job).template.spec.containers@.skip(1));
}

/// The volume of an inventory's credentials.
pub open spec fn ssh_volume_name(inventory: Seq<char>) -> Seq<char> {
    "ssh-"@ + inventory
}

/// The volumes of the credentials of some inventories.
pub open spec fn ssh_volumes(configs: Seq<(Seq<char>, SshConfig)>) -> Seq<(Seq<char>, SourceView)> {
    configs.map_values(
        |c: (Seq<char>, SshConfig)|
            (ssh_volume_name(c.0), credential(c.1.secret_ref.name@)),
    )
}

/// Where the credentials of some inventories are mounted: each in a directory of its own.
pub open spec fn ssh_mounts(configs: Seq<(Seq<char>, SshConfig)>) -> Seq<
    (Seq<char>, Seq<char>, Option<bool>),
> {
    configs.map_values(
        |c: (Seq<char>, SshConfig)|
            (ssh_volume_name(c.0), paths::ssh_dir_of(c.0), None::<bool>),
    )
}

/// Mounts the credentials of each `StaticInventory` a run targets.
pub fn configure_job_for_ssh(job: &mut Job, ssh_configs: &[(String, SshConfig)])
    requires
        old(job).template.spec.containers@.len() >= 1,
    ensures
        same_but_access(*old(job), *final(job)),
        job_volumes(*final(job)) == job_volumes(*old(job)) + ssh_volumes(
            named_configs(ssh_configs@),
        ),
        job_mounts(*final(job)) == job_mounts(*old(job)) + ssh_mounts(named_configs(ssh_configs@)),
        job_env(*final(job)) == job_env(*old(job)),
        final(job).template.spec.preferred_nodes == old(job).template.spec.preferred_nodes,
{
    let ghost start = *job;
    let ghost listed = named_configs(ssh_configs@);
    let mut i: usize = 0;
    assert(job_volumes(*job) =~= job_volumes(start) + ssh_volumes(listed.take(0)));
    assert(job_mounts(*job) =~= job_mounts(start) + ssh_mounts(listed.take(0)));
    while i < ssh_configs.len()
        invariant
            i <= ssh_configs@.len(),
            listed == named_configs(ssh_configs@),
            same_but_access(start, *job),
            job_volumes(*job) == job_volumes(start) + ssh_volumes(listed.take(i as int)),
            job_mounts(*job) == job_mounts(start) + ssh_mounts(listed.take(i as int)),
            job_env(*job) == job_env(start),
            job.template.spec.preferred_nodes == start.template.spec.preferred_nodes,
        decreases ssh_configs.len() - i,
    {
        let config = &ssh_configs[i];
        let name = concat("ssh-", config.0.as_str());
        let path = static_inventory_ssh_dir(config.0.as_str());
        mount_credential(job, name, config.1.secret_ref.name.as_str(), path);
        proof {
            assert(listed.take(i + 1) =~= listed.take(i as int).push(listed[i as int]));
            assert(job_volumes(*job) =~= job_volumes(start) + ssh_volumes(listed.take(i + 1)));
            assert(job_mounts(*job) =~= job_mounts(start) + ssh_mounts(listed.take(i + 1)));
        }
        i = i + 1;
    }
    assert(listed.take(i as int) =~= listed);
}

/// Mounts a run's client identity for its proxies.
pub fn configure_job_for_managed_ssh_client_cert(job: &mut Job, secret_name: &str)
    requires
        old(job).template.spec.containers@.len() >= 1,
    ensures
        same_but_access(*old(job), *final(job)),
        job_volumes(*final(job)) == job_volumes(*old(job)).push(
            ("managed-ssh-client"@, credential(secret_name@)),
        ),
        job_mounts(*final(job)) == job_mounts(*old(job)).push(
            ("managed-ssh-client"@, MANAGED_SSH_CLIENT_DIR@, None::<bool>),
        ),
        job_env(*final(job)) == job_env(*old(job)),
        final(job).template.spec.preferred_nodes == old(job).template.spec.preferred_nodes,
{
    mount_credential(
        job,
        "managed-ssh-client".to_owned(),
        secret_name,
        MANAGED_SSH_CLIENT_DIR.to_owned(),
    );
}

/// The environment that makes Ansible report per-host outcomes to the operator.
pub open spec fn callback_env() -> Seq<(Seq<char>, Seq<char>)> {
    seq![
        ("ANSIBLE_CALLBACKS_ENABLED"@, "ansible_operator_recap"@),
        ("ANSIBLE_CALLBACK_PLUGINS"@, WORKSPACE_MOUNT_PATH@),
    ]
}

/// Makes Ansible report per-host outcomes to the operator.
pub fn configure_job_for_callback_plugin(job: &mut Job)
    requires
        old(job).template.spec.containers@.len() >= 1,
    ensures
        same_but_access(*old(job), *final(job)),
        job_volumes(*final(job)) == job_volumes(*old(job)),
        job_mounts(*final(job)) == job_mounts(*old(job)),
        job_env(*final(job)) == job_env(*old(job)) + callback_env(),
        final(job).template.spec.preferred_nodes == old(job).template.spec.preferred_nodes,
{
    let ghost before = job_env(*job);
    job.template.spec.containers[0].env.push(
        EnvVar {
            name: "ANSIBLE_CALLBACKS_ENABLED".to_owned(),
            value: "ansible_operator_recap".to_owned(),
        },
    );
    job.template.spec.containers[0].env.push(
        EnvVar {
            name: "ANSIBLE_CALLBACK_PLUGINS".to_owned(),
            value: WORKSPACE_MOUNT_PATH.to_owned(),
        },
    );
    assert(job_env(*job) =~= before + callback_env());
    assert(job.template.spec.containers@.skip(1) =~= old(job).template.spec.containers@.skip(1));
}

/// A preference for any node but these.
pub open spec fn avoids(terms: Seq<PreferredNodeTerm>, nodes: Seq<Seq<char>>) -> bool {
    if nodes.len() == 0 {
        terms.len() == 0
    } else {
        &&& terms.len() == 1
        &&& terms[0].weight == 100
        &&& terms[0].key@ == HOSTNAME_LABEL@
        &&& terms[0].operator@ == "NotIn"@
        &&& text::texts(terms[0].values@) == nodes
    }
}

/// Prefers any node but those the run itself works on. It is only ever a preference: a run that
/// targets every node still runs.
pub fn configure_job_for_node_affinity(job: &mut Job, avoid_nodes: &[String])
    requires
        old(job).template.spec.containers@.len() >= 1,
    ensures
        same_but_access(*old(job), *final(job)),
        job_volumes(*final(job)) == job_volumes(*old(job)),
        job_mounts(*final(job)) == job_mounts(*old(job)),
        job_env(*final(job)) == job_env(*old(job)),
        if avoid_nodes@.len() == 0 {
            final(job).template.spec.preferred_nodes == old(job).template.spec.preferred_nodes
        } else {
            avoids(final(job).template.spec.preferred_nodes@, text::texts(avoid_nodes@))
        },
{
    if avoid_nodes.len() == 0 {
        return;
    }
    job.template.spec.preferred_nodes = vec![
        PreferredNodeTerm {
            weight: 100,
            key: HOSTNAME_LABEL.to_owned(),
            operator: "NotIn".to_owned(),
            values: clone_strings(avoid_nodes),
        },
    ];
}

// --- the whole Job ---------------------------------------------------------------------------

/// The labels of a run's Job and of its pod.
pub open spec fn job_label_texts(plan_name: Seq<char>, hash: ExecutionHash, run_id: Seq<char>) -> Map<
    Seq<char>,
    Seq<char>,
> {
    Map::<Seq<char>, Seq<char>>::empty().insert(PLAYBOOKPLAN_NAME@, plan_name).insert(
        PLAYBOOKPLAN_HASH@,
        numerals::numeral(hash.0 as nat, 16),
    ).insert(COMPONENT@, PLAYBOOK_COMPONENT@).insert(RUN_ID@, run_id)
}

/// The credentials a run mounts: its client identity if it uses proxies, then those of each
/// `StaticInventory`.
pub open spec fn access_volumes(groups: Seq<ResolvedInventoryGroup>, run_id: Seq<char>) -> Seq<
    (Seq<char>, SourceView),
> {
    (if uses_managed_ssh(groups) {
        seq![
            ("managed-ssh-client"@, credential(managed_ssh::client_secret_name(run_id))),
        ]
    } else {
        Seq::empty()
    }) + ssh_volumes(ssh_configs_of(groups))
}

/// Where the credentials of a run are mounted.
pub open spec fn access_mounts(groups: Seq<ResolvedInventoryGroup>) -> Seq<
    (Seq<char>, Seq<char>, Option<bool>),
> {
    (if uses_managed_ssh(groups) {
        seq![("managed-ssh-client"@, MANAGED_SSH_CLIENT_DIR@, None::<bool>)]
    } else {
        Seq::empty()
    }) + ssh_mounts(ssh_configs_of(groups))
}

/// The Job of an attempt, before it is tied to its record.
pub open spec fn is_blueprint(
    job: Job,
    hash: ExecutionHash,
    attempt: u32,
    run_id: Seq<char>,
    groups: Seq<ResolvedInventoryGroup>,
    plan: PlaybookPlan,
) -> bool {
    let with_requirements = plan.spec.template.requirements is Some;
    &&& file_volumes(files_of(plan)) matches Some(files)
    &&& job_frame(job, plan, files, with_requirements)
    &&& job_volumes(job) == plan_volumes(plan, files, with_requirements) + access_volumes(
        groups,
        run_id,
    )
    &&& job_mounts(job) == plan_mounts(plan, files, with_requirements) + access_mounts(groups)
    &&& job_env(job) == callback_env()
    &&& avoids(job.template.spec.preferred_nodes@, ansible_inventory::managed_hosts(groups))
    &&& text::text_of(job.metadata.name) == Some(
        job_names::job_name_of(plan.metadata.name->0@, plan.metadata.uid->0@, hash, attempt),
    )
    &&& text::text_of(job.metadata.namespace) == text::text_of(plan.metadata.namespace)
    &&& textmap::label_texts(job.metadata.labels@) == job_label_texts(
        plan.metadata.name->0@,
        hash,
        run_id,
    )
    &&& textmap::label_texts(job.template.metadata.labels@) == job_label_texts(
        plan.metadata.name->0@,
        hash,
        run_id,
    )
    &&& job.metadata.unstamped()
    &&& job.metadata.resource_version is None
    &&& job.metadata.annotations@ == Map::<Seq<char>, String>::empty()
    &&& job.template.metadata.name is None
    &&& job.template.metadata.namespace is None
    &&& job.template.metadata.unstamped()
    &&& job.template.metadata.resource_version is None
    &&& job.template.metadata.annotations@ == Map::<Seq<char>, String>::empty()
    &&& job.template.metadata.owner_references@.len() == 0
}

fn job_labels(plan_name: &str, hash: &ExecutionHash, run_id: &str) -> (res: LabelMap)
    ensures
        textmap::label_texts(res@) == job_label_texts(plan_name@, *hash, run_id@),
{
    let hash_text = hash.to_text();
    let mut labels = no_texts();
    set_text(&mut labels, PLAYBOOKPLAN_NAME, plan_name);
    set_text(&mut labels, PLAYBOOKPLAN_HASH, hash_text.as_str());
    set_text(&mut labels, COMPONENT, PLAYBOOK_COMPONENT);
    set_text(&mut labels, RUN_ID, run_id);
    labels
}

/// The Job of an attempt, a function of the arguments alone: a resumed attempt builds the Job it
/// committed to. Its template's metadata is set here as a whole, so it is tied to its record only
/// afterwards.
pub fn create_job_blueprint(
    hash: &ExecutionHash,
    retry_count: u32,
    run_id: &str,
    target_groups: &[ResolvedInventoryGroup],
    object: &PlaybookPlan,
) -> (res: Result<Job, ReconcileError>)
    requires
        object.metadata.name is Some,
        object.metadata.namespace is Some,
    ensures
        match res {
            Ok(job) => object.metadata.uid is Some && is_blueprint(
                job,
                *hash,
                retry_count,
                run_id@,
                target_groups@,
                *object,
            ),
            Err(error) => if object.metadata.uid is None {
                error == ReconcileError::PreconditionFailed("uid not set")
            } else {
                skeleton_refused(error, *object)
            },
        },
{
    let plan_name: &str = match &object.metadata.name {
        Some(name) => name.as_str(),
        None => "",
    };
    let plan_uid: &str = match &object.metadata.uid {
        Some(uid) => uid.as_str(),
        None => {
            return Err(ReconcileError::PreconditionFailed("uid not set"));
        },
    };
    let mut job = match create_job_skeleton(object, object.spec.template.requirements.is_some()) {
        Ok(job) => job,
        Err(error) => {
            return Err(error);
        },
    };
    let ghost files = file_volumes(files_of(*object))->0;
    let ghost skeleton = job;
    if has_managed_ssh_group(target_groups) {
        let secret_name = client_cert_secret_name(run_id);
        configure_job_for_managed_ssh_client_cert(&mut job, secret_name.as_str());
    }
    let ssh_configs = distinct_static_inventory_ssh_configs(target_groups);
    configure_job_for_ssh(&mut job, &ssh_configs);
    assert(job_volumes(job) =~= job_volumes(skeleton) + access_volumes(target_groups@, run_id@));
    assert(job_mounts(job) =~= job_mounts(skeleton) + access_mounts(target_groups@));
    configure_job_for_callback_plugin(&mut job);
    assert(job_env(job) =~= callback_env());
    let avoid_nodes = managed_ssh_node_names(target_groups);
    configure_job_for_node_affinity(&mut job, &avoid_nodes);
    job.metadata.namespace = clone_optional(&object.metadata.namespace);
    job.metadata.name = Some(job_name(plan_name, plan_uid, hash, retry_count));
    job.metadata.labels = job_labels(plan_name, hash, run_id);
    let mut template_metadata = ObjectMeta::default();
    template_metadata.labels = job_labels(plan_name, hash, run_id);
    job.template.metadata = template_metadata;
    Ok(job)
}

/// A resumed attempt builds the Job it committed to: two Jobs of one attempt carry the same name and
/// labels, run the same command in the same image, and see the same files and environment.
pub proof fn a_resumed_attempt_builds_the_same_job(
    a: Job,
    b: Job,
    hash: ExecutionHash,
    attempt: u32,
    run_id: Seq<char>,
    groups: Seq<ResolvedInventoryGroup>,
    plan: PlaybookPlan,
)
    requires
        is_blueprint(a, hash, attempt, run_id, groups, plan),
        is_blueprint(b, hash, attempt, run_id, groups, plan),
    ensures
        text::text_of(a.metadata.name) == text::text_of(b.metadata.name),
        text::text_of(a.metadata.namespace) == text::text_of(b.metadata.namespace),
        textmap::label_texts(a.metadata.labels@) == textmap::label_texts(b.metadata.labels@),
        textmap::label_texts(a.template.metadata.labels@) == textmap::label_texts(
            b.template.metadata.labels@,
        ),
        job_volumes(a) == job_volumes(b),
        job_mounts(a) == job_mounts(b),
        job_env(a) == job_env(b),
        text::texts(a.template.spec.containers@[0].command@) == text::texts(
            b.template.spec.containers@[0].command@,
        ),
        a.template.spec.containers@[0].image@ == b.template.spec.containers@[0].image@,
        a.template.spec.service_account_name == b.template.spec.service_account_name,
        a.backoff_limit == b.backoff_limit,
        a.ttl_seconds_after_finished == b.ttl_seconds_after_finished,
{
}

/// Ties a Job and its pod to the record of the attempt, just before it is created.
pub fn correlate_job_to_play(job: &mut Job, play_uid: &str)
    ensures
        final(job).template.spec == old(job).template.spec,
        final(job).backoff_limit == old(job).backoff_limit,
        final(job).ttl_seconds_after_finished == old(job).ttl_seconds_after_finished,
        same_but_annotations(final(job).metadata, old(job).metadata),
        same_but_annotations(final(job).template.metadata, old(job).template.metadata),
        textmap::label_texts(final(job).metadata.annotations@) == textmap::label_texts(
            old(job).metadata.annotations@,
        ).insert(PLAY_UID_ANNOTATION@, play_uid@),
        textmap::label_texts(final(job).template.metadata.annotations@) == textmap::label_texts(
            old(job).template.metadata.annotations@,
        ).insert(PLAY_UID_ANNOTATION@, play_uid@),
{
    set_text(&mut job.metadata.annotations, PLAY_UID_ANNOTATION, play_uid);
    set_text(&mut job.template.metadata.annotations, PLAY_UID_ANNOTATION, play_uid);
}

/// Whether two objects' metadata differ at most in annotations.
pub open spec fn same_but_annotations(a: ObjectMeta, b: ObjectMeta) -> bool {
    &&& a.name == b.name
    &&& a.namespace == b.namespace
    &&& a.uid == b.uid
    &&& a.resource_version == b.resource_version
    &&& a.generation == b.generation
    &&& a.creation_timestamp == b.creation_timestamp
    &&& a.deletion_timestamp == b.deletion_timestamp
    &&& a.labels == b.labels
    &&& a.owner_references == b.owner_references
}

/// The sweep that removes a run's proxy pods never matches the pod that runs the playbook.
pub proof fn cleanup_spares_the_job_pod(
    plan_name: Seq<char>,
    hash: ExecutionHash,
    run_id: Seq<char>,
    any_hash: ExecutionHash,
    any_run: Seq<char>,
)
    ensures
        !managed_ssh::swept(job_label_texts(plan_name, hash, run_id), any_hash, any_run),
        !job_label_texts(plan_name, hash, run_id).contains_key(PLAYBOOKPLAN_HOST@),
        job_label_texts(plan_name, hash, run_id)[PLAYBOOKPLAN_HASH@] == numerals::numeral(
            hash.0 as nat,
            16,
        ),
        job_label_texts(plan_name, hash, run_id)[RUN_ID@] == run_id,
{
    crate::labels::labels_are_distinct();
}

// --- what the Job may reach ------------------------------------------------------------------

/// The labels a run's egress policy selects its pod by.
pub open spec fn policy_label_texts(plan_name: Seq<char>, hash: ExecutionHash) -> Map<
    Seq<char>,
    Seq<char>,
> {
    Map::<Seq<char>, Seq<char>>::empty().insert(PLAYBOOKPLAN_NAME@, plan_name).insert(
        PLAYBOOKPLAN_HASH@,
        numerals::numeral(hash.0 as nat, 16),
    ).insert(COMPONENT@, PLAYBOOK_COMPONENT@)
}

/// A rule that allows reaching a run's proxies, on the SSH port.
pub open spec fn reaches_proxies(rule: EgressRule, operator_namespace: Seq<char>, hash: ExecutionHash) -> bool {
    rule matches EgressRule::Peers { to, ports } && {
        &&& to@.len() == 1
        &&& textmap::label_texts(to@[0].namespace_selector@) == Map::<
            Seq<char>,
            Seq<char>,
        >::empty().insert(NAMESPACE_NAME_LABEL@, operator_namespace)
        &&& textmap::label_texts(to@[0].pod_selector@) == Map::<Seq<char>, Seq<char>>::empty().insert(
            PLAYBOOKPLAN_HASH@,
            numerals::numeral(hash.0 as nat, 16),
        ).insert(COMPONENT@, MANAGED_SSH_PROXY_COMPONENT@)
        &&& ports@.len() == 1
        &&& ports@[0].port == PROXY_SSH_PORT
        &&& ports@[0].protocol@ == "TCP"@
    }
}

/// The policy of what a run's Job may reach: what is configured, and its proxies if it has some. It
/// is the plan's.
pub open spec fn egress_policy(
    policy: NetworkPolicy,
    operator_namespace: Seq<char>,
    hash: ExecutionHash,
    groups: Seq<ResolvedInventoryGroup>,
    plan: PlaybookPlan,
    configured: Seq<EgressRule>,
) -> bool {
    let name = plan.metadata.name->0@;
    &&& text::text_of(policy.metadata.name) == Some(job_names::policy_name_of(name, hash))
    &&& text::text_of(policy.metadata.namespace) == text::text_of(plan.metadata.namespace)
    &&& policy.metadata.owner_references@.len() == 1
    &&& refers_to_plan(policy.metadata.owner_references@[0], plan, Some(true))
    &&& textmap::label_texts(policy.metadata.labels@) == policy_label_texts(name, hash)
    &&& policy.metadata.unstamped()
    &&& policy.metadata.resource_version is None
    &&& policy.metadata.annotations@ == Map::<Seq<char>, String>::empty()
    &&& textmap::label_texts(policy.pod_selector@) == policy_label_texts(name, hash)
    &&& text::texts(policy.policy_types@) == seq!["Egress"@]
    &&& policy.ingress is None
    &&& policy.egress matches Some(rules) && if uses_managed_ssh(groups) {
        &&& rules@.len() == configured.len() + 1
        &&& rules@.take(configured.len() as int) == configured
        &&& reaches_proxies(rules@.last(), operator_namespace, hash)
    } else {
        rules@ == configured
    }
}

fn policy_labels(plan_name: &str, hash: &ExecutionHash) -> (res: LabelMap)
    ensures
        textmap::label_texts(res@) == policy_label_texts(plan_name@, *hash),
{
    let hash_text = hash.to_text();
    let mut labels = no_texts();
    set_text(&mut labels, PLAYBOOKPLAN_NAME, plan_name);
    set_text(&mut labels, PLAYBOOKPLAN_HASH, hash_text.as_str());
    set_text(&mut labels, COMPONENT, PLAYBOOK_COMPONENT);
    labels
}

fn proxy_rule(operator_namespace: &str, hash: &ExecutionHash) -> (res: EgressRule)
    ensures
        reaches_proxies(res, operator_namespace@, *hash),
{
    let hash_text = hash.to_text();
    let mut namespace_selector = no_texts();
    set_text(&mut namespace_selector, NAMESPACE_NAME_LABEL, operator_namespace);
    let mut pod_selector = no_texts();
    set_text(&mut pod_selector, PLAYBOOKPLAN_HASH, hash_text.as_str());
    set_text(&mut pod_selector, COMPONENT, MANAGED_SSH_PROXY_COMPONENT);
    EgressRule::Peers {
        to: vec![NetworkPolicyPeer { namespace_selector, pod_selector }],
        ports: vec![NetworkPolicyPort { port: PROXY_SSH_PORT, protocol: "TCP".to_owned() }],
    }
}

/// The policy of what a run's Job may reach.
pub fn job_network_policy(
    operator_namespace: &str,
    hash: &ExecutionHash,
    target_groups: &[ResolvedInventoryGroup],
    plan: &PlaybookPlan,
    egress: Vec<EgressRule>,
) -> (res: Result<NetworkPolicy, ReconcileError>)
    ensures
        match res {
            Ok(policy) => {
                &&& plan.metadata.namespace is Some
                &&& plan.metadata.name is Some
                &&& plan.metadata.uid is Some
                &&& egress_policy(
                    policy,
                    operator_namespace@,
                    *hash,
                    target_groups@,
                    *plan,
                    egress@,
                )
            },
            Err(error) => error == ReconcileError::PreconditionFailed(
                if plan.metadata.namespace is None {
                    "expected .metadata.namespace in PlaybookPlan"
                } else if plan.metadata.name is None {
                    "expected .metadata.name in PlaybookPlan"
                } else {
                    "expected .metadata.uid in PlaybookPlan"
                },
            ) && (plan.metadata.namespace is None || plan.metadata.name is None
                || plan.metadata.uid is None),
        },
{
    let namespace: &str = match &plan.metadata.namespace {
        Some(namespace) => namespace.as_str(),
        None => {
            return Err(
                ReconcileError::PreconditionFailed("expected .metadata.namespace in PlaybookPlan"),
            );
        },
    };
    let name: &str = match &plan.metadata.name {
        Some(name) => name.as_str(),
        None => {
            return Err(
                ReconcileError::PreconditionFailed("expected .metadata.name in PlaybookPlan"),
            );
        },
    };
    let uid: &str = match &plan.metadata.uid {
        Some(uid) => uid.as_str(),
        None => {
            return Err(
                ReconcileError::PreconditionFailed("expected .metadata.uid in PlaybookPlan"),
            );
        },
    };
    let ghost configured = egress@;
    let mut rules = egress;
    if has_managed_ssh_group(target_groups) {
        rules.push(proxy_rule(operator_namespace, hash));
        assert(rules@.take(configured.len() as int) =~= configured);
    }
    let mut metadata = ObjectMeta::default();
    metadata.name = Some(job_network_policy_name(name, hash));
    metadata.namespace = Some(namespace.to_owned());
    metadata.owner_references = vec![plan_reference(name, uid, Some(true))];
    metadata.labels = policy_labels(name, hash);
    let policy_types: Vec<String> = vec!["Egress".to_owned()];
    assert(text::texts(policy_types@) =~= seq!["Egress"@]);
    Ok(
        NetworkPolicy {
            metadata,
            pod_selector: policy_labels(name, hash),
            policy_types,
            ingress: None,
            egress: Some(rules),
        },
    )
}

/// The egress policy selects the run's own Job pod.
pub proof fn egress_policy_selects_the_job_pod(
    plan_name: Seq<char>,
    hash: ExecutionHash,
    run_id: Seq<char>,
)
    ensures
        policy_label_texts(plan_name, hash).submap_of(job_label_texts(plan_name, hash, run_id)),
{
    crate::labels::labels_are_distinct();
}

// --- what a Job is made of -------------------------------------------------------------------

proof fn lemma_extra_vars(files: Seq<Seq<char>>)
    ensures
        extra_vars(files).len() == 2 * files.len(),
        forall|k: int| 0 <= k < files.len() ==> #[trigger] extra_vars(files)[2 * k] == "--extra-vars"@,
        forall|k: int| 0 <= k < files.len() ==> #[trigger] extra_vars(files)[2 * k + 1] == files[k],
    decreases files.len(),
{
    if files.len() > 0 {
        let rest = files.drop_last();
        lemma_extra_vars(rest);
        let all = extra_vars(files);
        assert forall|k: int| 0 <= k < files.len() implies #[trigger] all[2 * k]
            == "--extra-vars"@ by {
            if k < rest.len() {
                assert(all[2 * k] == extra_vars(rest)[2 * k]);
            }
        }
        assert forall|k: int| 0 <= k < files.len() implies #[trigger] all[2 * k + 1]
            == files[k] by {
            if k < rest.len() {
                assert(all[2 * k + 1] == extra_vars(rest)[2 * k + 1]);
            }
        }
    }
}

/// The sources of a plan's variables are told apart as they are listed: each Secret by its name and in its
/// place among the Secrets, and each that is written out counts one.
pub proof fn sources_are_taken_as_they_are_listed(
    sources: Seq<PlaybookVariableSource>,
    source: PlaybookVariableSource,
)
    ensures
        inline_sources(Seq::<PlaybookVariableSource>::empty()) == 0,
        secret_sources(Seq::<PlaybookVariableSource>::empty()).len() == 0,
        inline_sources(sources.push(source)) == inline_sources(sources) + if source is Inline {
            1int
        } else {
            0int
        },
        secret_sources(sources.push(source)) == if source is SecretRef {
            secret_sources(sources).push(source->SecretRef_secret_ref.name@)
        } else {
            secret_sources(sources)
        },
        inline_sources(sources) + secret_sources(sources).len() == sources.len(),
    decreases sources.len(),
{
    assert(sources.push(source).drop_last() =~= sources);
    if sources.len() > 0 {
        sources_are_taken_as_they_are_listed(sources.drop_last(), source);
    }
}

/// The Secrets of a plan's files are taken as they are listed.
pub proof fn file_secrets_are_taken_as_they_are_listed(
    sources: Seq<FilesSource>,
    source: FilesSource,
)
    ensures
        secret_files(Seq::<FilesSource>::empty()).len() == 0,
        secret_files(sources.push(source)) == if source is Secret {
            secret_files(sources).push(source->Secret_secret_ref.name@)
        } else {
            secret_files(sources)
        },
{
    assert(sources.push(source).drop_last() =~= sources);
}

/// Ansible is told of every source of variables: of each that is written out by the file that source is
/// rendered to, and of no other, and then of each Secret by the file it is mounted as, all in the order in
/// which they are listed. Nothing else stands between the program and what it is to run.
pub proof fn every_source_of_variables_is_passed(plan: PlaybookPlan, secrets: Seq<Seq<char>>, k: int)
    ensures
        ({
            let command = ansible_command(plan, secrets);
            let first = if plan.spec.verbosity matches Some(level) && level > 0 {
                2int
            } else {
                1int
            };
            let inline = inline_sources(variables_of(plan));
            &&& command.len() == first + 2 * inline + 2 * secrets.len() + 3
            &&& command[0] == "ansible-playbook"@
            &&& 0 <= k < inline ==> command[first + 2 * k] == "--extra-vars"@ && command[first + 2 * k
                + 1] == "@static-variables-"@ + numerals::numeral(k as nat, 10) + ".yml"@
            &&& 0 <= k < secrets.len() ==> command[first + 2 * inline + 2 * k] == "--extra-vars"@
                && command[first + 2 * inline + 2 * k + 1] == "@"@ + WORKSPACE_MOUNT_PATH@
                + "/vars/"@ + secrets[k] + "/variables.yaml"@
            &&& command[command.len() - 3] == "-i"@
            &&& command[command.len() - 2] == "inventory.yml"@
            &&& command[command.len() - 1] == "playbook.yml"@
        }),
{
    let inline = inline_sources(variables_of(plan));
    lemma_extra_vars(static_files(inline));
    lemma_extra_vars(secret_files_seen(secrets));
    let statics = extra_vars(static_files(inline));
    let seen = extra_vars(secret_files_seen(secrets));
    let head = seq!["ansible-playbook"@] + verbosity_flag(plan.spec.verbosity);
    let command = ansible_command(plan, secrets);
    if 0 <= k < inline {
        assert(command[head.len() + 2 * k] == statics[2 * k]);
        assert(command[head.len() + 2 * k + 1] == statics[2 * k + 1]);
    }
    if 0 <= k < secrets.len() {
        assert(command[head.len() + statics.len() + 2 * k] == seen[2 * k]);
        assert(command[head.len() + statics.len() + 2 * k + 1] == seen[2 * k + 1]);
    }
}

/// No two sources that are written out share a file.
pub proof fn sources_have_files_of_their_own(i: nat, j: nat)
    ensures
        static_variables_file(i) == static_variables_file(j) <==> i == j,
{
    numerals::numeral_round_trip(i, 10);
    numerals::numeral_round_trip(j, 10);
    let prefix = "@static-variables-"@;
    let suffix = ".yml"@;
    let x = numerals::numeral(i, 10);
    let y = numerals::numeral(j, 10);
    let a = static_variables_file(i);
    let b = static_variables_file(j);
    assert(x =~= a.subrange(prefix.len() as int, a.len() - suffix.len()));
    assert(y =~= b.subrange(prefix.len() as int, b.len() - suffix.len()));
}

/// A plan's verbosity is as many letters as it asks for, up to four; none is asked for by leaving it out or
/// by zero.
pub proof fn verbosity_is_as_asked_up_to_four(level: u8)
    ensures
        verbosity_flag(None).len() == 0,
        verbosity_flag(Some(0)).len() == 0,
        level > 0 ==> verbosity_flag(Some(level)).len() == 1,
        level > 0 ==> verbosity_flag(Some(level))[0].len() == 1 + if level < 4 {
            level as int
        } else {
            4int
        },
        level > 0 ==> verbosity_flag(Some(level))[0][0] == '-',
        level > 0 ==> forall|i: int|
            0 < i < verbosity_flag(Some(level))[0].len() ==> #[trigger] verbosity_flag(
                Some(level),
            )[0][i] == 'v',
{
    reveal_strlit("-");
}

/// A Secret's variables are mounted where Ansible is told they are, and readable by nobody else.
pub proof fn a_secrets_variables_are_where_ansible_looks(secrets: Seq<Seq<char>>, i: int)
    requires
        0 <= i < secrets.len(),
    ensures
        variable_volumes(secrets).len() == secrets.len(),
        variable_mounts(secrets).len() == secrets.len(),
        variable_volumes(secrets)[i].0 == variable_mounts(secrets)[i].0,
        variable_volumes(secrets)[i].1 == (SourceView::Secret {
            secret_name: secrets[i],
            default_mode: Some(0o400i32),
            items: Some(seq![("variables.yaml"@, "variables.yaml"@)]),
        }),
        secret_variables_file(secrets[i]) == "@"@ + variable_mounts(secrets)[i].1
            + "/variables.yaml"@,
        variable_mounts(secrets)[i].1 == WORKSPACE_MOUNT_PATH@ + "/vars/"@ + secrets[i],
{
    assert(secret_variables_file(secrets[i]) =~= "@"@ + variable_mounts(secrets)[i].1
        + "/variables.yaml"@);
}

/// Every volume of a plan is mounted, once and in order: the playbook, the variables of each Secret, each
/// of the files, and room for what is required.
pub proof fn every_volume_of_a_plan_is_mounted(
    plan: PlaybookPlan,
    files: Seq<(Seq<char>, SourceView)>,
    with_requirements: bool,
    i: int,
)
    ensures
        plan_volumes(plan, files, with_requirements).len() == 1 + secret_sources(
            variables_of(plan),
        ).len() + files.len() + if with_requirements {
            1int
        } else {
            0int
        },
        plan_mounts(plan, files, with_requirements).len() == plan_volumes(
            plan,
            files,
            with_requirements,
        ).len(),
        0 <= i < plan_volumes(plan, files, with_requirements).len() ==> plan_volumes(
            plan,
            files,
            with_requirements,
        )[i].0 == plan_mounts(plan, files, with_requirements)[i].0,
        plan_volumes(plan, files, with_requirements)[0].1 == (SourceView::Secret {
            secret_name: plan.metadata.name->0@,
            default_mode: None,
            items: None,
        }),
        plan_mounts(plan, files, with_requirements)[0].1 == WORKSPACE_MOUNT_PATH@,
        0 <= i < secret_sources(variables_of(plan)).len() ==> plan_volumes(
            plan,
            files,
            with_requirements,
        )[1 + i] == variable_volumes(secret_sources(variables_of(plan)))[i],
        0 <= i < files.len() ==> plan_volumes(plan, files, with_requirements)[1 + secret_sources(
            variables_of(plan),
        ).len() + i] == files[i] && plan_mounts(plan, files, with_requirements)[1 + secret_sources(
            variables_of(plan),
        ).len() + i].1 == WORKSPACE_MOUNT_PATH@ + "/files/"@ + files[i].0,
        with_requirements ==> plan_volumes(plan, files, with_requirements).last() == (
            "collections"@,
            SourceView::EmptyDir,
        ) && plan_mounts(plan, files, with_requirements).last().1 == "/etc/ansible/collections"@,
{
}

/// The files of a plan are its sources, one volume each and in order, and a plan has none of them exactly
/// where one of them is no volume; what is reported then is the first such.
pub proof fn files_are_their_sources(sources: Seq<FilesSource>, i: int)
    ensures
        file_volumes(sources) is Some <==> forall|k: int|
            0 <= k < sources.len() ==> source_volume(#[trigger] sources[k]) is Some,
        file_volumes(sources) matches Some(volumes) ==> volumes.len() == sources.len() && (0 <= i
            < sources.len() ==> source_volume(sources[i]) == Some(volumes[i])),
        file_volumes(sources) is None <==> first_invalid(sources) is Some,
        first_invalid(sources) matches Some(name) ==> exists|k: int|
            0 <= k < sources.len() && source_volume(#[trigger] sources[k]) is None && name
                == source_name(sources[k]) && forall|m: int|
                0 <= m < k ==> source_volume(#[trigger] sources[m]) is Some,
    decreases sources.len(),
{
    if sources.len() > 0 {
        let rest = sources.drop_last();
        let last = sources.len() - 1;
        files_are_their_sources(rest, i);
        assert forall|k: int| 0 <= k < rest.len() implies #[trigger] rest[k] == sources[k] by {}
        if file_volumes(sources) is Some {
            assert forall|k: int| 0 <= k < sources.len() implies source_volume(
                #[trigger] sources[k],
            ) is Some by {
                if k < last {
                    assert(source_volume(rest[k]) is Some);
                }
            }
            if 0 <= i < last {
                assert(rest[i] == sources[i]);
            }
        }
        if forall|k: int|
            0 <= k < sources.len() ==> source_volume(#[trigger] sources[k]) is Some {
            assert forall|k: int| 0 <= k < rest.len() implies source_volume(#[trigger] rest[k])
                is Some by {
                assert(source_volume(sources[k]) is Some);
            }
            assert(source_volume(sources[last]) is Some);
        }
        if first_invalid(rest) is Some {
            let k = choose|k: int|
                0 <= k < rest.len() && source_volume(#[trigger] rest[k]) is None
                    && first_invalid(rest)->0 == source_name(rest[k]) && forall|m: int|
                    0 <= m < k ==> source_volume(#[trigger] rest[m]) is Some;
            assert(source_volume(sources[k]) is None);
            assert forall|m: int| 0 <= m < k implies source_volume(#[trigger] sources[m])
                is Some by {
                assert(source_volume(rest[m]) is Some);
            }
        } else if first_invalid(sources) is Some {
            assert(source_volume(sources[last]) is None);
            assert forall|m: int| 0 <= m < last implies source_volume(#[trigger] sources[m])
                is Some by {
                assert(source_volume(rest[m]) is Some);
            }
        }
    }
}

/// A file that comes from a Secret is that Secret, whole, under the name it was given.
pub proof fn a_file_from_a_secret_is_the_secret(source: FilesSource)
    requires
        source is Secret,
    ensures
        source_volume(source) == Some(
            (
                source->Secret_name@,
                SourceView::Secret {
                    secret_name: source->Secret_secret_ref.name@,
                    default_mode: None,
                    items: None,
                },
            ),
        ),
{
}

/// A Job is kept as long as its plan says, but never for less than a minute, and for an hour where the plan
/// says nothing.
pub proof fn a_job_is_kept_as_long_as_asked(plan: PlaybookPlan)
    ensures
        plan.spec.ttl_seconds_after_finished is None ==> job_ttl(plan) == 3600,
        plan.spec.ttl_seconds_after_finished matches Some(seconds) ==> job_ttl(plan) == if seconds
            < 60 {
            60
        } else {
            seconds
        },
{
}

/// A run sees one credential for each of the external inventories it reaches, once and by its name, and no
/// other.
pub proof fn a_credential_for_every_inventory(groups: Seq<ResolvedInventoryGroup>, name: Seq<char>)
    ensures
        listed_inventory(ssh_configs_of(groups), name) <==> exists|g: int|
            0 <= g < groups.len() && (#[trigger] groups[g]) is Ssh
                && groups[g]->Ssh_static_inventory_name@ == name,
        forall|i: int|
            0 <= i < ssh_configs_of(groups).len() ==> exists|g: int|
                0 <= g < groups.len() && (#[trigger] groups[g]) is Ssh
                    && groups[g]->Ssh_static_inventory_name@ == (#[trigger] ssh_configs_of(
                    groups,
                )[i]).0 && groups[g]->config == ssh_configs_of(groups)[i].1,
        forall|i: int, j: int|
            0 <= i < j < ssh_configs_of(groups).len() ==> (#[trigger] ssh_configs_of(groups)[i]).0
                != (#[trigger] ssh_configs_of(groups)[j]).0,
    decreases groups.len(),
{
    if groups.len() > 0 {
        let rest = groups.drop_last();
        let last = groups.len() - 1;
        a_credential_for_every_inventory(rest, name);
        let before = ssh_configs_of(rest);
        let all = ssh_configs_of(groups);
        assert forall|i: int| 0 <= i < all.len() implies exists|g: int|
            0 <= g < groups.len() && (#[trigger] groups[g]) is Ssh
                && groups[g]->Ssh_static_inventory_name@ == (#[trigger] all[i]).0
                && groups[g]->config == all[i].1 by {
            if i < before.len() {
                assert(all[i] == before[i]);
                let g = choose|g: int|
                    0 <= g < rest.len() && (#[trigger] rest[g]) is Ssh
                        && rest[g]->Ssh_static_inventory_name@ == before[i].0
                        && rest[g]->config == before[i].1;
                assert(groups[g] == rest[g]);
            } else {
                assert(groups[last] is Ssh);
            }
        }
        if groups[last] is Ssh {
            let own = groups[last]->Ssh_static_inventory_name@;
            a_credential_for_every_inventory(rest, own);
            if !listed_inventory(before, own) {
                assert(all[before.len() as int].0 == own);
                assert forall|i: int, j: int| 0 <= i < j < all.len() implies (#[trigger] all[i]).0
                    != (#[trigger] all[j]).0 by {
                    if j < before.len() {
                        assert(before[i].0 != before[j].0);
                    } else {
                        assert(before[i] == all[i]);
                    }
                }
            }
            assert(listed_inventory(all, own)) by {
                if listed_inventory(before, own) {
                    assert(all == before);
                } else {
                    assert(all[before.len() as int].0 == own);
                }
            }
        }
        if listed_inventory(all, name) {
            let i = choose|i: int| 0 <= i < all.len() && (#[trigger] all[i]).0 == name;
            assert(exists|g: int|
                0 <= g < groups.len() && (#[trigger] groups[g]) is Ssh
                    && groups[g]->Ssh_static_inventory_name@ == all[i].0);
        }
        if exists|g: int|
            0 <= g < groups.len() && (#[trigger] groups[g]) is Ssh
                && groups[g]->Ssh_static_inventory_name@ == name {
            let g = choose|g: int|
                0 <= g < groups.len() && (#[trigger] groups[g]) is Ssh
                    && groups[g]->Ssh_static_inventory_name@ == name;
            if g < last {
                assert(rest[g] == groups[g]);
                assert(listed_inventory(before, name));
                let i = choose|i: int| 0 <= i < before.len() && (#[trigger] before[i]).0 == name;
                assert(all[i].0 == name);
            }
        }
    }
}

/// What a run logs in with is mounted where its hosts look for it: the client identity of a run that reaches
/// Nodes, and the key of every external inventory under that inventory's own name.
pub proof fn credentials_are_where_hosts_look(
    groups: Seq<ResolvedInventoryGroup>,
    run_id: Seq<char>,
    i: int,
)
    ensures
        access_volumes(groups, run_id).len() == access_mounts(groups).len(),
        access_volumes(groups, run_id).len() == ssh_configs_of(groups).len() + if exists|g: int|
            0 <= g < groups.len() && (#[trigger] groups[g]) is ManagedSsh {
            1int
        } else {
            0int
        },
        0 <= i < access_mounts(groups).len() ==> access_volumes(groups, run_id)[i].0
            == access_mounts(groups)[i].0,
        (exists|g: int| 0 <= g < groups.len() && (#[trigger] groups[g]) is ManagedSsh)
            ==> access_mounts(groups)[0].1 == MANAGED_SSH_CLIENT_DIR@ && access_volumes(
            groups,
            run_id,
        )[0].1 == (SourceView::Secret {
            secret_name: managed_ssh::client_secret_name(run_id),
            default_mode: Some(0o400i32),
            items: None,
        }),
        0 <= i < ssh_configs_of(groups).len() ==> ({
            let at = access_mounts(groups).len() - ssh_configs_of(groups).len() + i;
            let config = ssh_configs_of(groups)[i];
            &&& access_mounts(groups)[at].1 == paths::ssh_dir_of(config.0)
            &&& access_volumes(groups, run_id)[at].1 == (SourceView::Secret {
                secret_name: config.1.secret_ref.name@,
                default_mode: Some(0o400i32),
                items: None,
            })
        }),
{
}

/// A Job runs its plan's playbook once and for itself: in the plan's image, never retried by the cluster,
/// owned by the plan, with nothing of its node and an API token only for an account the plan names. What is
/// required is installed first, and only then.
pub proof fn a_job_runs_its_plan(
    job: Job,
    hash: ExecutionHash,
    attempt: u32,
    run_id: Seq<char>,
    groups: Seq<ResolvedInventoryGroup>,
    plan: PlaybookPlan,
)
    requires
        is_blueprint(job, hash, attempt, run_id, groups, plan),
    ensures
        ({
            let pod = job.template.spec;
            let container = pod.containers@[0];
            &&& pod.containers@.len() == 1
            &&& container.name@ == "ansible-playbook"@
            &&& container.image@ == plan.spec.image@
            &&& text::texts(container.command@) == ansible_command(
                plan,
                secret_sources(variables_of(plan)),
            )
            &&& text::text_of(container.working_dir) == Some(WORKSPACE_MOUNT_PATH@)
            &&& text::text_of(container.termination_message_path) == Some("/dev/termination-log"@)
            &&& container.security_context is Some <==> plan.spec.security_context is Some
            &&& pod.init_containers@.len() == if plan.spec.template.requirements is Some {
                1int
            } else {
                0int
            }
            &&& plan.spec.template.requirements is Some ==> pod.init_containers@[0].image@
                == plan.spec.image@ && text::texts(pod.init_containers@[0].command@) == seq![
                "ansible-galaxy"@,
                "install"@,
                "-r"@,
                "requirements.yml"@,
            ]
            &&& pod.restart_policy@ == "Never"@
            &&& pod.service_account_name == plan.spec.service_account_name
            &&& pod.automount_service_account_token <==> plan.spec.service_account_name is Some
            &&& !pod.host_pid && !pod.host_network && !pod.host_ipc
            &&& job.backoff_limit == Some(0i32)
            &&& job.metadata.owner_references@.len() == 1
            &&& job.metadata.owner_references@[0].name@ == plan.metadata.name->0@
            &&& job.metadata.owner_references@[0].uid@ == plan.metadata.uid->0@
            &&& job.metadata.owner_references@[0].kind@ == "PlaybookPlan"@
        }),
{
}

/// A Job and its pod say which plan, revision and run they are of, and the pod reports its recap to the
/// operator.
pub proof fn a_job_says_what_it_is(
    job: Job,
    hash: ExecutionHash,
    attempt: u32,
    run_id: Seq<char>,
    groups: Seq<ResolvedInventoryGroup>,
    plan: PlaybookPlan,
)
    requires
        is_blueprint(job, hash, attempt, run_id, groups, plan),
    ensures
        ({
            let own = textmap::label_texts(job.metadata.labels@);
            let pod = textmap::label_texts(job.template.metadata.labels@);
            &&& own == pod
            &&& own.contains_key(PLAYBOOKPLAN_NAME@) && own[PLAYBOOKPLAN_NAME@]
                == plan.metadata.name->0@
            &&& own.contains_key(PLAYBOOKPLAN_HASH@) && own[PLAYBOOKPLAN_HASH@] == numerals::numeral(
                hash.0 as nat,
                16,
            )
            &&& own.contains_key(COMPONENT@) && own[COMPONENT@] == PLAYBOOK_COMPONENT@
            &&& own.contains_key(RUN_ID@) && own[RUN_ID@] == run_id
            &&& job_env(job).contains(("ANSIBLE_CALLBACKS_ENABLED"@, "ansible_operator_recap"@))
            &&& job_env(job).contains(("ANSIBLE_CALLBACK_PLUGINS"@, WORKSPACE_MOUNT_PATH@))
            &&& text::text_of(job.metadata.namespace) == text::text_of(plan.metadata.namespace)
        }),
{
    crate::labels::labels_are_distinct();
    assert(job_env(job)[0] == ("ANSIBLE_CALLBACKS_ENABLED"@, "ansible_operator_recap"@));
    assert(job_env(job)[1] == ("ANSIBLE_CALLBACK_PLUGINS"@, WORKSPACE_MOUNT_PATH@));
}

/// A Job would rather run anywhere but on the Nodes its run applies to, and only would rather.
pub proof fn a_job_stays_off_its_targets(terms: Seq<PreferredNodeTerm>, nodes: Seq<Seq<char>>)
    requires
        avoids(terms, nodes),
    ensures
        nodes.len() == 0 <==> terms.len() == 0,
        nodes.len() > 0 ==> terms.len() == 1 && terms[0].operator@ == "NotIn"@ && terms[0].key@
            == HOSTNAME_LABEL@ && text::texts(terms[0].values@) == nodes,
{
}

/// What a run's Job may reach is what is configured, in order, and then its own proxies, on their port
/// and by their revision, exactly where the run has some; the policy is for the Job's own pod.
pub proof fn a_job_reaches_what_is_configured_and_its_proxies(
    policy: NetworkPolicy,
    operator_namespace: Seq<char>,
    hash: ExecutionHash,
    groups: Seq<ResolvedInventoryGroup>,
    plan: PlaybookPlan,
    configured: Seq<EgressRule>,
    i: int,
)
    requires
        egress_policy(policy, operator_namespace, hash, groups, plan, configured),
    ensures
        policy.egress is Some,
        policy.ingress is None,
        text::texts(policy.policy_types@) == seq!["Egress"@],
        0 <= i < configured.len() ==> policy.egress->0@[i] == configured[i],
        policy.egress->0@.len() == configured.len() + if exists|g: int|
            0 <= g < groups.len() && (#[trigger] groups[g]) is ManagedSsh {
            1int
        } else {
            0int
        },
        (exists|g: int| 0 <= g < groups.len() && (#[trigger] groups[g]) is ManagedSsh) ==> (
        policy.egress->0@.last() matches EgressRule::Peers { to, ports } && to@.len() == 1
            && ports@.len() == 1 && ports@[0].port == PROXY_SSH_PORT && ports@[0].protocol@
            == "TCP"@),
{
    if uses_managed_ssh(groups) && 0 <= i < configured.len() {
        assert(policy.egress->0@.take(configured.len() as int)[i] == policy.egress->0@[i]);
    }
}

/// A Job that is tied to its record keeps its name, its Namespace, its labels and its owners.
pub proof fn a_job_stays_what_it_was(a: ObjectMeta, b: ObjectMeta)
    requires
        same_but_annotations(a, b),
    ensures
        a.name == b.name,
        a.namespace == b.namespace,
        a.uid == b.uid,
        a.labels == b.labels,
        a.owner_references@ == b.owner_references@,
{
}

/// Giving a Job its access adds mounts, volumes and environment, and changes nothing else about it.
pub proof fn access_leaves_the_rest_of_a_job_alone(a: Job, b: Job)
    requires
        same_but_access(a, b),
    ensures
        a.metadata == b.metadata,
        a.template.metadata == b.template.metadata,
        a.backoff_limit == b.backoff_limit,
        a.ttl_seconds_after_finished == b.ttl_seconds_after_finished,
        a.template.spec.containers@.len() == b.template.spec.containers@.len(),
        a.template.spec.containers@[0].name == b.template.spec.containers@[0].name,
        a.template.spec.containers@[0].image == b.template.spec.containers@[0].image,
        a.template.spec.containers@[0].command == b.template.spec.containers@[0].command,
        a.template.spec.containers@[0].working_dir == b.template.spec.containers@[0].working_dir,
        a.template.spec.containers@[0].security_context
            == b.template.spec.containers@[0].security_context,
        a.template.spec.containers@[0].readiness_probe
            == b.template.spec.containers@[0].readiness_probe,
        a.template.spec.containers@[0].termination_message_path
            == b.template.spec.containers@[0].termination_message_path,
        a.template.spec.containers@[0].termination_message_policy
            == b.template.spec.containers@[0].termination_message_policy,
        a.template.spec.service_account_name == b.template.spec.service_account_name,
        a.template.spec.automount_service_account_token
            == b.template.spec.automount_service_account_token,
        a.template.spec.restart_policy == b.template.spec.restart_policy,
        a.template.spec.init_containers == b.template.spec.init_containers,
        a.template.spec.tolerations == b.template.spec.tolerations,
        a.template.spec.node_selector == b.template.spec.node_selector,
        a.template.spec.host_network == b.template.spec.host_network,
        a.template.spec.host_pid == b.template.spec.host_pid,
        a.template.spec.host_ipc == b.template.spec.host_ipc,
{
}

/// The playbook runs in the image of its plan, from the workspace, leaves its recap where containers leave their
/// last word, and may do what the plan says.
pub proof fn a_playbook_runs_as_its_plan_says(c: Container, plan: PlaybookPlan)
    requires
        playbook_container(c, plan),
    ensures
        c.name@ == "ansible-playbook"@,
        c.image@ == plan.spec.image@,
        text::text_of(c.working_dir) == Some("/run/ansible-operator/workspace"@),
        text::text_of(c.termination_message_path) == Some("/dev/termination-log"@),
        text::text_of(c.termination_message_policy) == Some("File"@),
        c.readiness_probe is None,
        plan.spec.security_context is None ==> c.security_context is None,
        plan.spec.security_context matches Some(wanted) ==> c.security_context == Some(
            SecurityContext::FromPlan(wanted),
        ),
{
}

/// What a plan requires is installed in the image of the plan, from the workspace and by the list of
/// requirements, under the same limits as the playbook.
pub proof fn requirements_are_installed_as_the_plan_says(
    c: Container,
    plan: PlaybookPlan,
    mounts: Seq<(Seq<char>, Seq<char>, Option<bool>)>,
)
    requires
        installer_container(c, plan, mounts),
    ensures
        c.name@ == "download-collections"@,
        c.image@ == plan.spec.image@,
        text::text_of(c.working_dir) == Some("/run/ansible-operator/workspace"@),
        text::texts(c.command@) == seq![
            "ansible-galaxy"@,
            "install"@,
            "-r"@,
            "requirements.yml"@,
        ],
        workloads::mount_views(c.volume_mounts@) == mounts,
        c.env@.len() == 0,
        c.readiness_probe is None,
        c.termination_message_path is None,
        c.termination_message_policy is None,
        plan.spec.security_context is None ==> c.security_context is None,
        plan.spec.security_context matches Some(wanted) ==> c.security_context == Some(
            SecurityContext::FromPlan(wanted),
        ),
{
}

} // verus!
