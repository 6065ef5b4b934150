//! The labels and annotations a run's objects are found by.

use vstd::prelude::*;

verus! {

/// The plan an object belongs to.
pub const PLAYBOOKPLAN_NAME: &'static str = "ansible.cloudbending.dev/playbookplan";

/// The revision a run applies.
pub const PLAYBOOKPLAN_HASH: &'static str = "ansible.cloudbending.dev/hash";

/// The host a proxy pod gives access to. Only proxy infrastructure carries it.
pub const PLAYBOOKPLAN_HOST: &'static str = "ansible.cloudbending.dev/host";

/// The attempt an object belongs to.
pub const RUN_ID: &'static str = "ansible.cloudbending.dev/run-id";

/// What part of a run an object is.
pub const COMPONENT: &'static str = "app.kubernetes.io/component";

pub const PLAYBOOK_COMPONENT: &'static str = "playbook";

pub const MANAGED_SSH_PROXY_COMPONENT: &'static str = "managed-ssh-proxy";

/// The record a Job was created for.
pub const PLAY_UID_ANNOTATION: &'static str = "ansible.cloudbending.dev/play-uid";

/// No two of the labels are the same.
pub proof fn labels_are_distinct()
    ensures
        PLAYBOOKPLAN_NAME@ != PLAYBOOKPLAN_HASH@,
        PLAYBOOKPLAN_NAME@ != PLAYBOOKPLAN_HOST@,
        PLAYBOOKPLAN_NAME@ != RUN_ID@,
        PLAYBOOKPLAN_NAME@ != COMPONENT@,
        PLAYBOOKPLAN_HASH@ != PLAYBOOKPLAN_HOST@,
        PLAYBOOKPLAN_HASH@ != RUN_ID@,
        PLAYBOOKPLAN_HASH@ != COMPONENT@,
        PLAYBOOKPLAN_HOST@ != RUN_ID@,
        PLAYBOOKPLAN_HOST@ != COMPONENT@,
        RUN_ID@ != COMPONENT@,
{
    reveal_strlit("ansible.cloudbending.dev/playbookplan");
    reveal_strlit("ansible.cloudbending.dev/hash");
    reveal_strlit("ansible.cloudbending.dev/host");
    reveal_strlit("ansible.cloudbending.dev/run-id");
    reveal_strlit("app.kubernetes.io/component");
    assert(PLAYBOOKPLAN_HASH@[26] != PLAYBOOKPLAN_HOST@[26]);
    assert(PLAYBOOKPLAN_NAME@.len() == 37);
    assert(PLAYBOOKPLAN_HASH@.len() == 29);
    assert(RUN_ID@.len() == 31);
    assert(COMPONENT@.len() == 27);
}

} // verus!
