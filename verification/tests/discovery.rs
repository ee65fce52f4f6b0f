use kubeprovision::inventory::{DiscoveryError, InstanceDescription};
use kubeprovision::node::{LifecycleState, NodeRole};
use kubeprovision::operator::{start_instances, AwsOperator, ScriptedProvider, StateTarget};
use kubeprovision::tags::{AwsTag, AwsTagSpec, InstanceTag};

fn tag(key: &str, value: &str) -> InstanceTag {
    InstanceTag {
        key: Some(key.to_string()),
        value: Some(value.to_string()),
    }
}

fn spec() -> AwsTagSpec {
    AwsTagSpec {
        node: AwsTag::key("cluster".to_string()).value("demo".to_string()),
        master_node: AwsTag::key("role".to_string()).value("master".to_string()),
        worker_node: AwsTag::key("role".to_string()).value("worker".to_string()),
    }
}

fn instance(id: &str, tags: Vec<InstanceTag>) -> InstanceDescription {
    InstanceDescription {
        instance_id: Some(id.to_string()),
        public_address: Some("203.0.113.1".to_string()),
        state: LifecycleState::Running,
        tags,
    }
}

#[test]
fn tag_filter_matches_key_and_value() {
    let f = AwsTag::key("role".to_string()).value("master".to_string());
    assert!(f.matches(&tag("role", "master")));
    assert!(!f.matches(&tag("role", "worker")));
    assert!(!f.matches(&tag("other", "master")));
}

#[test]
fn key_only_filter_matches_any_value() {
    let f = AwsTag::key("role".to_string());
    assert!(f.matches(&tag("role", "anything")));
    assert!(f.matches(&InstanceTag {
        key: Some("role".to_string()),
        value: None,
    }));
    assert!(!f.matches(&InstanceTag {
        key: None,
        value: Some("role".to_string()),
    }));
}

#[test]
fn tag_matching_both_filters_is_master() {
    let ts = AwsTagSpec {
        node: AwsTag::key("cluster".to_string()),
        master_node: AwsTag::key("role".to_string()),
        worker_node: AwsTag::key("role".to_string()).value("worker".to_string()),
    };
    // The single tag satisfies the master filter (key only) and the worker
    // filter (key and value); the tie always breaks to master.
    let role = ts.categorize(&vec![tag("role", "worker")]);
    assert_eq!(role, Some(NodeRole::Master));
}

#[test]
fn instance_with_master_and_worker_tags_is_master() {
    let role = spec().categorize(&vec![tag("role", "worker"), tag("role", "master")]);
    assert_eq!(role, Some(NodeRole::Master));
}

#[test]
fn instance_matching_neither_filter_has_no_role() {
    assert_eq!(spec().categorize(&vec![tag("env", "prod")]), None);
    assert_eq!(spec().categorize(&vec![]), None);
}

#[test]
fn discovery_partitions_and_excludes() {
    let page = vec![
        instance("i-master", vec![tag("role", "master")]),
        instance("i-ignored", vec![tag("env", "prod")]),
        instance("i-worker", vec![tag("role", "worker")]),
    ];
    let operator = AwsOperator::with(ScriptedProvider::new(vec![page]), spec());
    let nodes = operator.list_nodes().unwrap();
    assert_eq!(nodes.master.len(), 1);
    assert_eq!(nodes.worker.len(), 1);
    assert_eq!(nodes.master[0].id.as_str(), "i-master");
    assert_eq!(nodes.worker[0].id.as_str(), "i-worker");
    let ids: Vec<String> = nodes
        .node_ids()
        .iter()
        .map(|id| id.as_str().to_string())
        .collect();
    assert_eq!(ids, vec!["i-master".to_string(), "i-worker".to_string()]);
}

#[test]
fn discovery_is_exhaustive_under_pagination() {
    let one_page = AwsOperator::with(
        ScriptedProvider::new(vec![vec![
            instance("i-1", vec![tag("role", "master")]),
            instance("i-2", vec![tag("role", "worker")]),
            instance("i-3", vec![tag("role", "worker")]),
        ]]),
        spec(),
    );
    let paged = AwsOperator::with(
        ScriptedProvider::new(vec![
            vec![
                instance("i-1", vec![tag("role", "master")]),
                instance("i-2", vec![tag("role", "worker")]),
            ],
            vec![instance("i-3", vec![tag("role", "worker")])],
        ]),
        spec(),
    );
    let a = one_page.list_nodes().unwrap();
    let b = paged.list_nodes().unwrap();
    let ids_a: Vec<String> = a
        .node_ids()
        .iter()
        .map(|id| id.as_str().to_string())
        .collect();
    let ids_b: Vec<String> = b
        .node_ids()
        .iter()
        .map(|id| id.as_str().to_string())
        .collect();
    assert_eq!(ids_a, ids_b);
    assert_eq!(
        ids_a,
        vec!["i-1".to_string(), "i-2".to_string(), "i-3".to_string()]
    );
}

#[test]
fn qualifying_instance_without_id_aborts_discovery() {
    let page = vec![
        instance("i-ok", vec![tag("role", "master")]),
        InstanceDescription {
            instance_id: None,
            public_address: None,
            state: LifecycleState::Running,
            tags: vec![tag("role", "worker")],
        },
    ];
    let operator = AwsOperator::with(ScriptedProvider::new(vec![page]), spec());
    let err = operator.list_nodes().unwrap_err();
    assert!(matches!(err, DiscoveryError::MissingInstanceId));
}

#[test]
fn qualifying_instance_with_empty_id_aborts_discovery() {
    let page = vec![instance("", vec![tag("role", "worker")])];
    let operator = AwsOperator::with(ScriptedProvider::new(vec![page]), spec());
    let err = operator.list_nodes().unwrap_err();
    assert!(matches!(err, DiscoveryError::MissingInstanceId));
}

#[test]
fn unmatched_instance_without_id_is_skipped_silently() {
    let page = vec![InstanceDescription {
        instance_id: None,
        public_address: None,
        state: LifecycleState::Stopped,
        tags: vec![tag("env", "prod")],
    }];
    let operator = AwsOperator::with(ScriptedProvider::new(vec![page]), spec());
    let nodes = operator.list_nodes().unwrap();
    assert_eq!(nodes.master.len() + nodes.worker.len(), 0);
}

#[test]
fn set_state_on_empty_cluster_issues_no_provider_call() {
    let mut operator = AwsOperator::with(ScriptedProvider::new(vec![vec![]]), spec());
    let nodes = operator.list_nodes().unwrap();
    assert_eq!(nodes.master.len() + nodes.worker.len(), 0);
    operator.start_nodes(&nodes).unwrap();
    operator.stop_nodes(&nodes).unwrap();
    assert!(operator.api.recorded_calls().is_empty());
}

#[test]
fn set_state_batches_all_ids_in_one_call() {
    let page = vec![
        instance("i-m", vec![tag("role", "master")]),
        instance("i-w", vec![tag("role", "worker")]),
    ];
    let mut operator = AwsOperator::with(ScriptedProvider::new(vec![page]), spec());
    let nodes = operator.list_nodes().unwrap();
    operator.start_nodes(&nodes).unwrap();
    operator.stop_nodes(&nodes).unwrap();
    let calls = operator.api.recorded_calls();
    assert_eq!(calls.len(), 2);
    assert_eq!(calls[0].target, StateTarget::Start);
    assert_eq!(calls[0].ids, vec!["i-m".to_string(), "i-w".to_string()]);
    assert_eq!(calls[1].target, StateTarget::Stop);
    assert_eq!(calls[1].ids, vec!["i-m".to_string(), "i-w".to_string()]);
}

#[test]
fn provider_error_carries_its_message() {
    let err = DiscoveryError::Provider {
        message: "throttled".to_string(),
    };
    assert!(matches!(err, DiscoveryError::Provider { ref message } if message == "throttled"));
}

#[test]
fn failed_batch_call_propagates_the_provider_error() {
    let page = vec![instance("i-m", vec![tag("role", "master")])];
    let mut operator = AwsOperator::with(
        ScriptedProvider::with_state_failures(vec![page], vec![0]),
        spec(),
    );
    let nodes = operator.list_nodes().unwrap();
    // The first batch call is issued and rejected; the next one succeeds.
    assert!(operator.start_nodes(&nodes).is_err());
    assert_eq!(operator.api.recorded_calls().len(), 1);
    operator.start_nodes(&nodes).unwrap();
    assert_eq!(operator.api.recorded_calls().len(), 2);
}

#[test]
fn start_instances_aborted_discovery_issues_no_call() {
    let page = vec![InstanceDescription {
        instance_id: None,
        public_address: None,
        state: LifecycleState::Running,
        tags: vec![tag("role", "worker")],
    }];
    let mut operator = AwsOperator::with(ScriptedProvider::new(vec![page]), spec());
    let err = start_instances(&mut operator).unwrap_err();
    assert!(matches!(err, DiscoveryError::MissingInstanceId));
    assert!(operator.api.recorded_calls().is_empty());
}

#[test]
fn start_instances_starts_the_discovered_snapshot() {
    let page = vec![
        instance("i-m", vec![tag("role", "master")]),
        instance("i-w", vec![tag("role", "worker")]),
    ];
    let mut operator = AwsOperator::with(ScriptedProvider::new(vec![page]), spec());
    let nodes = start_instances(&mut operator).unwrap();
    let ids: Vec<String> = nodes
        .node_ids()
        .iter()
        .map(|id| id.as_str().to_string())
        .collect();
    assert_eq!(ids, vec!["i-m".to_string(), "i-w".to_string()]);
    let calls = operator.api.recorded_calls();
    assert_eq!(calls.len(), 1);
    assert_eq!(calls[0].target, StateTarget::Start);
    assert_eq!(calls[0].ids, vec!["i-m".to_string(), "i-w".to_string()]);
}
