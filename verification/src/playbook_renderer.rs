//! The playbook as a run executes it: what the author wrote, and behind it a play that tells which
//! hosts reached the end.

use vstd::prelude::*;
use serde_yaml::{Mapping, Value};
use crate::plans::PlaybookPlanSpec;

verus! {

/// The task whose results tell which hosts reached the end of the playbook. A host that was fine up
/// to the point where the playbook stopped has the same counters as one that ran all of it.
pub const COMPLETION_MARKER_TASK: &'static str = "__ansible_operator_play_completed";

pub const COMPLETION_MARKER_PLAY: &'static str = "__ansible_operator_completion_marker";

pub const COMPLETION_MARKER_MESSAGE: &'static str = "ansible-operator completion marker";

// --- YAML values -----------------------------------------------------------------------------

/// What a YAML value holds.
pub ghost enum Yaml {
    Null,
    Flag(bool),
    Number(Seq<char>),
    Text(Seq<char>),
    List(Seq<Yaml>),
    Dict(Seq<(Yaml, Yaml)>),
    Tagged(Seq<char>, Box<Yaml>),
}

/// `serde_yaml::Value`: any YAML value.
#[verifier::external_type_specification]
#[verifier::external_body]
pub struct ExValue(serde_yaml::Value);

/// `serde_yaml::Mapping`: a YAML mapping, which keeps its entries in the order they were added.
#[verifier::external_type_specification]
#[verifier::external_body]
pub struct ExMapping(serde_yaml::Mapping);

/// `serde_yaml::Error`: why a text is not read, or a value not written.
#[verifier::external_type_specification]
#[verifier::external_body]
pub struct ExError(serde_yaml::Error);

/// What a YAML value holds.
pub uninterp spec fn yaml_of(value: Value) -> Yaml;

/// The entries of a YAML mapping, in their order.
pub uninterp spec fn entries_of(mapping: Mapping) -> Seq<(Yaml, Yaml)>;

/// What some YAML values hold.
pub open spec fn yamls_of(values: Seq<Value>) -> Seq<Yaml> {
    values.map_values(|value: Value| yaml_of(value))
}

/// `serde_yaml::Mapping::new`: no entries.
pub assume_specification[ serde_yaml::Mapping::new ]() -> (res: Mapping)
    ensures
        entries_of(res) == Seq::<(Yaml, Yaml)>::empty(),
;

/// `serde_yaml::Mapping::insert` of a text that is no key yet: the entry is added behind the others.
pub assume_specification[ serde_yaml::Mapping::insert ](mapping: &mut Mapping, k: Value, v: Value) -> (res:
    Option<Value>)
    requires
        yaml_of(k) is Text,
        forall|i: int|
            0 <= i < entries_of(*old(mapping)).len() ==> (#[trigger] entries_of(*old(mapping))[i]).0
                != yaml_of(k),
    ensures
        res is None,
        entries_of(*final(mapping)) == entries_of(*old(mapping)).push((yaml_of(k), yaml_of(v))),
;

/// `serde_yaml::Value::String`: a text as a YAML value.
#[verifier::external_body]
fn text_value(text: &str) -> (res: Value)
    ensures
        yaml_of(res) == Yaml::Text(text@),
{
    Value::String(text.into())
}

/// `serde_yaml::Value::Bool`: a flag as a YAML value.
#[verifier::external_body]
fn flag_value(flag: bool) -> (res: Value)
    ensures
        yaml_of(res) == Yaml::Flag(flag),
{
    Value::Bool(flag)
}

/// `serde_yaml::Value::Sequence`: values as one YAML value.
#[verifier::external_body]
fn list_value(values: Vec<Value>) -> (res: Value)
    ensures
        yaml_of(res) == Yaml::List(yamls_of(values@)),
{
    Value::Sequence(values)
}

/// `serde_yaml::Value::Mapping`: a mapping as a YAML value.
#[verifier::external_body]
fn mapping_value(mapping: Mapping) -> (res: Value)
    ensures
        yaml_of(res) == Yaml::Dict(entries_of(mapping)),
{
    Value::Mapping(mapping)
}

/// The values of the YAML list that a text writes down, or none where it is no such list.
pub uninterp spec fn yaml_list_in(text: Seq<char>) -> Option<Seq<Yaml>>;

/// `serde_yaml::from_str` into a list of values: the values of the list, and an error exactly where
/// the text is no YAML list; a function of the text alone.
#[verifier::external_body]
fn read_list(text: &str) -> (res: Result<Vec<Value>, serde_yaml::Error>)
    ensures
        match res {
            Ok(values) => yaml_list_in(text@) == Some(yamls_of(values@)),
            Err(_) => yaml_list_in(text@) is None,
        },
{
    serde_yaml::from_str(text)
}

/// The text that writes down a YAML list, or none where it has none.
pub uninterp spec fn yaml_text_of(values: Seq<Yaml>) -> Option<Seq<char>>;

/// `serde_yaml::to_string` of a list of values: the text, and an error exactly where there is none; a
/// function of what the values hold alone. That reading the text gives the values back is not
/// claimed.
#[verifier::external_body]
fn write_list(values: &Vec<Value>) -> (res: Result<String, serde_yaml::Error>)
    ensures
        match res {
            Ok(text) => yaml_text_of(yamls_of(values@)) == Some(text@),
            Err(_) => yaml_text_of(yamls_of(values@)) is None,
        },
{
    serde_yaml::to_string(values)
}

// --- the marker ------------------------------------------------------------------------------

/// The task that reports completion. It runs on the controller, so it costs no connection, and it
/// has no tags.
pub open spec fn marker_task() -> Yaml {
    Yaml::Dict(
        seq![
            (Yaml::Text("name"@), Yaml::Text(COMPLETION_MARKER_TASK@)),
            (
                Yaml::Text("ansible.builtin.debug"@),
                Yaml::Dict(seq![(Yaml::Text("msg"@), Yaml::Text(COMPLETION_MARKER_MESSAGE@))]),
            ),
        ],
    )
}

/// The play that is put behind the author's: on every host the run still has, without gathering facts.
pub open spec fn marker_play() -> Yaml {
    Yaml::Dict(
        seq![
            (Yaml::Text("name"@), Yaml::Text(COMPLETION_MARKER_PLAY@)),
            (Yaml::Text("hosts"@), Yaml::Text("all"@)),
            (Yaml::Text("gather_facts"@), Yaml::Flag(false)),
            (Yaml::Text("tasks"@), Yaml::List(seq![marker_task()])),
        ],
    )
}

/// The play that is put behind the author's.
pub fn completion_marker_play() -> (res: Value)
    ensures
        yaml_of(res) == marker_play(),
{
    proof {
        reveal_strlit("name");
        reveal_strlit("hosts");
        reveal_strlit("gather_facts");
        reveal_strlit("tasks");
        reveal_strlit("ansible.builtin.debug");
        assert("name"@.len() == 4 && "hosts"@.len() == 5 && "gather_facts"@.len() == 12
            && "tasks"@.len() == 5 && "ansible.builtin.debug"@.len() == 21);
        assert("hosts"@[0] == 'h' && "tasks"@[0] == 't');
    }
    let mut debug_args = Mapping::new();
    debug_args.insert(text_value("msg"), text_value(COMPLETION_MARKER_MESSAGE));
    assert(entries_of(debug_args) =~= seq![
        (Yaml::Text("msg"@), Yaml::Text(COMPLETION_MARKER_MESSAGE@)),
    ]);
    let mut task = Mapping::new();
    task.insert(text_value("name"), text_value(COMPLETION_MARKER_TASK));
    task.insert(text_value("ansible.builtin.debug"), mapping_value(debug_args));
    assert(Yaml::Dict(entries_of(task)) == marker_task()) by {
        assert(entries_of(task) =~= marker_task()->Dict_0);
    }
    let mut tasks: Vec<Value> = Vec::new();
    tasks.push(mapping_value(task));
    assert(yamls_of(tasks@) =~= seq![marker_task()]);
    let mut play = Mapping::new();
    play.insert(text_value("name"), text_value(COMPLETION_MARKER_PLAY));
    play.insert(text_value("hosts"), text_value("all"));
    play.insert(text_value("gather_facts"), flag_value(false));
    play.insert(text_value("tasks"), list_value(tasks));
    assert(Yaml::Dict(entries_of(play)) == marker_play()) by {
        assert(entries_of(play) =~= marker_play()->Dict_0);
    }
    mapping_value(play)
}

/// Puts the marker behind the plays of a playbook, which stay what they are.
pub fn append_marker(plays: &mut Vec<Value>)
    ensures
        final(plays)@.len() == old(plays)@.len() + 1,
        forall|i: int| 0 <= i < old(plays)@.len() ==> #[trigger] final(plays)@[i] == old(plays)@[i],
        yaml_of(final(plays)@.last()) == marker_play(),
        yamls_of(final(plays)@) == yamls_of(old(plays)@).push(marker_play()),
{
    let ghost before = plays@;
    plays.push(completion_marker_play());
    assert(yamls_of(plays@) =~= yamls_of(before).push(marker_play()));
}

/// Why a playbook is not rendered.
#[derive(Debug)]
pub enum RenderError {
    /// The playbook is no YAML list, or cannot be written out as one.
    Yaml(serde_yaml::Error),
}

/// The playbook a run executes. A playbook that is no list of plays is refused.
pub fn render_playbook(spec: &PlaybookPlanSpec) -> (res: Result<String, RenderError>)
    ensures
        match yaml_list_in(spec.template.playbook@) {
            Some(plays) => match res {
                Ok(text) => yaml_text_of(plays.push(marker_play())) == Some(text@),
                Err(_) => yaml_text_of(plays.push(marker_play())) is None,
            },
            None => res is Err,
        },
{
    let mut plays = match read_list(spec.template.playbook.as_str()) {
        Ok(plays) => plays,
        Err(error) => {
            return Err(RenderError::Yaml(error));
        },
    };
    append_marker(&mut plays);
    match write_list(&plays) {
        Ok(text) => Ok(text),
        Err(error) => Err(RenderError::Yaml(error)),
    }
}

/// The marker play reaches every host, gathers nothing, and has the one task by which a host is known to have
/// come to the end.
pub proof fn the_marker_reaches_every_host()
    ensures
        marker_play() == Yaml::Dict(
            seq![
                (Yaml::Text("name"@), Yaml::Text("__ansible_operator_completion_marker"@)),
                (Yaml::Text("hosts"@), Yaml::Text("all"@)),
                (Yaml::Text("gather_facts"@), Yaml::Flag(false)),
                (
                    Yaml::Text("tasks"@),
                    Yaml::List(
                        seq![
                            Yaml::Dict(
                                seq![
                                    (
                                        Yaml::Text("name"@),
                                        Yaml::Text("__ansible_operator_play_completed"@),
                                    ),
                                    (
                                        Yaml::Text("ansible.builtin.debug"@),
                                        Yaml::Dict(
                                            seq![
                                                (
                                                    Yaml::Text("msg"@),
                                                    Yaml::Text("ansible-operator completion marker"@),
                                                ),
                                            ],
                                        ),
                                    ),
                                ],
                            ),
                        ],
                    ),
                ),
            ],
        ),
{
}

} // verus!
