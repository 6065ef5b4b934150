use ansible_operator::plans::PlaybookPlanSpec;
use ansible_operator::playbook_renderer::{
    append_marker, completion_marker_play, render_playbook, RenderError, COMPLETION_MARKER_TASK,
};
use serde_yaml::{Sequence, Value};

fn spec(playbook: &str) -> PlaybookPlanSpec {
    let mut spec = PlaybookPlanSpec {
        image: "example/ansible:1".into(),
        ..Default::default()
    };
    spec.template.playbook = playbook.into();
    spec
}

#[test]
fn the_marker_play_is_appended_after_every_play_the_author_wrote() {
    let rendered = render_playbook(&spec(
        "- hosts: webservers\n  tasks: []\n- hosts: dbservers\n  tasks: []\n",
    ))
    .unwrap();
    let plays: Sequence = serde_yaml::from_str(&rendered).unwrap();

    assert_eq!(plays.len(), 3);
    assert_eq!(plays[0]["hosts"], Value::String("webservers".into()));
    assert_eq!(plays[1]["hosts"], Value::String("dbservers".into()));
    // Last, so nothing the author wrote runs after it.
    assert_eq!(plays[2]["hosts"], Value::String("all".into()));
    assert_eq!(
        plays[2]["tasks"][0]["name"],
        Value::String(COMPLETION_MARKER_TASK.into())
    );
}

#[test]
fn the_authors_plays_are_rendered_unchanged() {
    let playbook = "- hosts: all\n  any_errors_fatal: true\n  serial: 2\n  tasks:\n    - ansible.builtin.ping:\n";
    let rendered = render_playbook(&spec(playbook)).unwrap();
    let plays: Sequence = serde_yaml::from_str(&rendered).unwrap();
    let original: Sequence = serde_yaml::from_str(playbook).unwrap();

    assert_eq!(plays[0], original[0]);
}

#[test]
fn the_marker_runs_one_untagged_debug_task_on_every_host() {
    let marker = completion_marker_play();
    assert_eq!(
        marker["name"],
        Value::String("__ansible_operator_completion_marker".into())
    );
    assert_eq!(marker["gather_facts"], Value::Bool(false));
    assert_eq!(marker["tasks"][0]["name"], Value::String("__ansible_operator_play_completed".into()));
    assert_eq!(
        marker["tasks"][0]["ansible.builtin.debug"]["msg"],
        Value::String("ansible-operator completion marker".into())
    );
    let task = marker["tasks"][0].as_mapping().unwrap();
    assert_eq!(task.len(), 2);
    assert_eq!(marker.as_mapping().unwrap().len(), 4);

    let mut plays: Vec<Value> = vec![Value::Null];
    append_marker(&mut plays);
    assert_eq!(plays, vec![Value::Null, marker]);
}

#[test]
fn a_playbook_that_is_no_list_of_plays_is_refused() {
    assert!(matches!(render_playbook(&spec("hosts: all")), Err(RenderError::Yaml(_))));
    assert!(matches!(render_playbook(&spec("- [")), Err(RenderError::Yaml(_))));
    let empty = render_playbook(&spec("[]")).unwrap();
    let plays: Sequence = serde_yaml::from_str(&empty).unwrap();
    assert_eq!(plays, vec![completion_marker_play()]);
}
