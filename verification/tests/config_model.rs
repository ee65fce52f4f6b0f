use kubeprovision::config::{
    AwsConfig, Config, Ec2Config, Ec2NodeConfig, Node, ParseConfigError, Provider, SshConfig,
    TagConfig,
};
use kubeprovision::node::{ClusterNodes, LifecycleState, NodeId, NodeRecord, NodeRole};
use kubeprovision::tags::InstanceTag;

fn tag_config(key: &str, value: &str) -> TagConfig {
    TagConfig {
        key: key.to_string(),
        value: value.to_string(),
    }
}

fn sample_config() -> Config {
    Config {
        provider: Provider::Aws,
        aws: Some(AwsConfig {
            ec2: Ec2Config {
                node: Ec2NodeConfig {
                    distribution: "ubuntu".to_string(),
                    ssh: SshConfig {
                        user: "ubuntu".to_string(),
                    },
                    tag: tag_config("cluster", "demo"),
                    master: Node {
                        tag: tag_config("role", "master"),
                    },
                    worker: Node {
                        tag: tag_config("role", "worker"),
                    },
                },
            },
        }),
    }
}

#[test]
fn provider_name_parses_in_any_case() {
    assert!(matches!(Provider::from_str("aws"), Ok(Provider::Aws)));
    assert!(matches!(Provider::from_str("AWS"), Ok(Provider::Aws)));
    assert!(matches!(Provider::from_str("Aws"), Ok(Provider::Aws)));
}

#[test]
fn unsupported_provider_is_reported_verbatim() {
    assert_eq!(
        Provider::from_str("gcp").unwrap_err(),
        "unsupported provider: gcp"
    );
    assert_eq!(
        Provider::from_str("").unwrap_err(),
        "unsupported provider: "
    );
}

#[test]
fn tag_spec_carries_the_configured_filters() {
    let spec = sample_config().aws_tag_spec().unwrap();
    assert!(spec.node.matches(&InstanceTag {
        key: Some("cluster".to_string()),
        value: Some("demo".to_string()),
    }));
    assert!(!spec.node.matches(&InstanceTag {
        key: Some("cluster".to_string()),
        value: Some("other".to_string()),
    }));
    assert_eq!(
        spec.categorize(&vec![InstanceTag {
            key: Some("role".to_string()),
            value: Some("worker".to_string()),
        }]),
        Some(NodeRole::Worker)
    );
}

#[test]
fn tag_spec_needs_the_provider_section() {
    let config = Config {
        provider: Provider::Aws,
        aws: None,
    };
    assert!(config.aws_tag_spec().is_none());
}

#[test]
fn parse_config_error_has_a_fixed_message() {
    assert_eq!(
        ParseConfigError::new().message(),
        "Could not parse configuration file"
    );
}

#[test]
fn role_and_state_labels() {
    assert_eq!(NodeRole::Master.label(), "master");
    assert_eq!(NodeRole::Worker.label(), "worker");
    assert_eq!(LifecycleState::Pending.label(), "pending");
    assert_eq!(LifecycleState::Running.label(), "running");
    assert_eq!(LifecycleState::Stopping.label(), "stopping");
    assert_eq!(LifecycleState::Stopped.label(), "stopped");
    assert_eq!(LifecycleState::Unknown.label(), "unknown");
}

#[test]
fn cluster_nodes_enumerations_keep_order() {
    let nodes = ClusterNodes {
        master: vec![NodeRecord::new(
            NodeId::new("i-m".to_string()),
            None,
            LifecycleState::Stopped,
        )],
        worker: vec![
            NodeRecord::new(
                NodeId::new("i-w1".to_string()),
                Some("192.0.2.5".to_string()),
                LifecycleState::Running,
            ),
            NodeRecord::new(
                NodeId::new("i-w2".to_string()),
                None,
                LifecycleState::Pending,
            ),
        ],
    };
    assert_eq!(nodes.len(), 3);
    let ids: Vec<String> = nodes
        .node_ids()
        .iter()
        .map(|id| id.as_str().to_string())
        .collect();
    assert_eq!(
        ids,
        vec!["i-m".to_string(), "i-w1".to_string(), "i-w2".to_string()]
    );
    let pairs = nodes.nodes();
    assert_eq!(pairs.len(), 3);
    assert_eq!(pairs[0].0, NodeRole::Master);
    assert_eq!(pairs[1].0, NodeRole::Worker);
    assert_eq!(pairs[2].0, NodeRole::Worker);
    assert_eq!(pairs[1].1.public_address, Some("192.0.2.5".to_string()));
    let owned = nodes.into_nodes();
    assert_eq!(owned.len(), 3);
    assert_eq!(owned[2].1.id.as_str(), "i-w2");
}
