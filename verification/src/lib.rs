//! Verified core of an operator that runs Ansible playbooks against cluster nodes and external
//! hosts.

pub mod ansible_inventory;
pub mod ca;
pub mod callback_output;
pub mod cluster_inventory;
pub mod departed_hosts;
pub mod dependencies;
pub mod dependency_keys;
pub mod digests;
pub mod execution_evaluator;
pub mod host_records;
pub mod host_vars;
pub mod job_builder;
pub mod job_names;
pub mod json;
pub mod labels;
pub mod lock_passes;
pub mod locking;
pub mod managed_ssh;
pub mod mappers;
pub mod node_access;
pub mod node_labels;
pub mod node_readiness;
pub mod node_recreation;
pub mod nodeselector;
pub mod numerals;
pub mod order;
pub mod pairs;
pub mod paths;
pub mod plans;
pub mod play_history;
pub mod playbook_renderer;
pub mod preparation;
pub mod proxy_objects;
pub mod proxy_pass;
pub mod reconcile_pass;
pub mod reconciler;
pub mod recovery;
pub mod resources;
pub mod run_finish;
pub mod run_identity;
pub mod run_inventory;
pub mod run_start;
pub mod search;
pub mod seqs;
pub mod text;
pub mod textmap;
pub mod timing;
pub mod utils;
pub mod version;
pub mod workloads;
