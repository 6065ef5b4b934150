# ansible-operator

A Kubernetes operator that runs Ansible playbooks against a cluster's own Nodes and against
external hosts. A `PlaybookPlan` says what to run, where and when; the operator renders it, locks
the hosts, opens one SSH proxy per Node, starts a Job and keeps a `Play` as the record of each run.

What the operator decides is the library under `src/`, verified with Verus: every function states
what it returns or changes, and the properties that span functions are public proof functions. What
reaches the cluster is the program under `app/`, which performs the calls the library asks for and
hands the answers back.

## The library

| | |
|---|---|
| Values | `text`, `textmap`, `pairs`, `seqs`, `search`, `order`, `numerals`, `json`, `digests`, `timing` |
| Resources | `resources`, `plans`, `workloads`, `labels`, `paths`, `version` |
| Inventories | `ansible_inventory`, `cluster_inventory`, `nodeselector`, `run_inventory`, `host_vars` |
| Nodes | `node_access`, `node_labels`, `node_readiness`, `node_recreation`, `departed_hosts` |
| Dependencies | `dependency_keys`, `dependencies` |
| Revisions | `execution_evaluator`, `preparation`, `playbook_renderer` |
| Locks | `locking`, `lock_passes` |
| Proxies | `ca`, `managed_ssh`, `proxy_objects`, `proxy_pass` |
| Jobs | `job_names`, `job_builder`, `callback_output` |
| Runs | `run_identity`, `run_start`, `run_finish`, `play_history`, `host_records`, `recovery` |
| Plans | `reconciler`, `reconcile_pass`, `mappers`, `utils` |

A sequence of calls that depends on its own answers is a pass: a value that names the next call and
takes what came of it. A look at a plan is a `ReconcilePass`; within it stand a `LockPass`, a `ProxyPass`,
a `StartPass` and a `SpawnPass`.

Calls into other crates (`serde_json`, `serde_yaml`, `base64`, `flate2`, `twox_hash`,
`k8s_openapi`, `ssh_key`) stand behind small wrappers; the comment above each says what is believed of it.

## The program

`app/main.rs` has two commands: `run` starts the controllers, `crds` prints the CRD manifests.
