use kubeprovision::fleet::{
    aggregate_outcomes, exec_on_fleet, provision_fleet, NodeError, ScriptedConnector,
};
use kubeprovision::node::{ClusterNodes, LifecycleState, NodeId, NodeRecord, NodeRole};
use kubeprovision::provision::provisioning_script;
use kubeprovision::remote_command::Command;

fn node(id: &str, address: Option<&str>) -> NodeRecord {
    NodeRecord::new(
        NodeId::new(id.to_string()),
        address.map(|a| a.to_string()),
        LifecycleState::Running,
    )
}

#[test]
fn provision_fleet_reports_every_node_despite_failures() {
    // Node A fails at its second step; node B succeeds throughout.
    let nodes = ClusterNodes {
        master: vec![node("i-a", Some("198.51.100.1"))],
        worker: vec![node("i-b", Some("198.51.100.2"))],
    };
    let mut conn = ScriptedConnector::new(vec![vec![1], vec![]]);
    let report = provision_fleet(&nodes, "ubuntu", &mut conn);

    assert_eq!(report.len(), 2);
    assert_eq!(report[0].id.as_str(), "i-a");
    assert_eq!(report[0].role, NodeRole::Master);
    assert!(report[0].result.is_err());
    assert_eq!(report[1].id.as_str(), "i-b");
    assert_eq!(report[1].role, NodeRole::Worker);
    assert!(report[1].result.is_ok());

    // B's task ran to completion even though A failed: its session ran the
    // full script, while A's stopped right after its failing second step.
    let sessions = conn.finished_sessions();
    assert_eq!(sessions.len(), 2);
    assert_eq!(sessions[0].0.as_slice(), &provisioning_script()[..2]);
    assert_eq!(sessions[0].1, vec![true, false]);
    assert_eq!(&sessions[1].0, &provisioning_script());
    assert_eq!(sessions[1].1, vec![true; 12]);

    // The aggregate failure names node A specifically, and only node A.
    let fleet_err = aggregate_outcomes(&report).unwrap_err();
    assert_eq!(fleet_err.failures.len(), 1);
    assert_eq!(fleet_err.failures[0].id.as_str(), "i-a");
}

#[test]
fn provision_fleet_all_ok_aggregates_to_success() {
    let nodes = ClusterNodes {
        master: vec![node("i-m", Some("198.51.100.1"))],
        worker: vec![node("i-w", Some("198.51.100.2"))],
    };
    let mut conn = ScriptedConnector::new(vec![]);
    let report = provision_fleet(&nodes, "ubuntu", &mut conn);
    assert!(aggregate_outcomes(&report).is_ok());
    assert_eq!(conn.connections().len(), 2);
}

#[test]
fn node_without_address_fails_before_any_connect() {
    let nodes = ClusterNodes {
        master: vec![node("i-dark", None)],
        worker: vec![],
    };
    let mut conn = ScriptedConnector::new(vec![]);
    let report = provision_fleet(&nodes, "ubuntu", &mut conn);
    assert_eq!(report.len(), 1);
    assert!(matches!(
        report[0].result,
        Err(NodeError::MissingPublicAddress)
    ));
    assert!(conn.connections().is_empty());
    assert!(conn.finished_sessions().is_empty());

    let mut conn2 = ScriptedConnector::new(vec![]);
    let report2 = exec_on_fleet(&nodes, "ubuntu", "uptime", None, &mut conn2);
    assert_eq!(report2.len(), 1);
    assert!(matches!(
        report2[0].result,
        Err(NodeError::MissingPublicAddress)
    ));
    assert!(conn2.connections().is_empty());
}

#[test]
fn exec_on_fleet_worker_filter_hits_each_worker_once() {
    let nodes = ClusterNodes {
        master: vec![
            node("i-m1", Some("192.0.2.1")),
            node("i-m2", Some("192.0.2.2")),
        ],
        worker: vec![
            node("i-w1", Some("192.0.2.11")),
            node("i-w2", Some("192.0.2.12")),
            node("i-w3", Some("192.0.2.13")),
        ],
    };
    let mut conn = ScriptedConnector::new(vec![]);
    let report = exec_on_fleet(
        &nodes,
        "ubuntu",
        "systemctl status kubelet",
        Some(NodeRole::Worker),
        &mut conn,
    );

    assert_eq!(report.len(), 3);
    for entry in &report {
        assert_eq!(entry.role, NodeRole::Worker);
        assert!(entry.result.is_ok());
    }

    // Exactly three sessions, one per worker, none against a master, and
    // each session ran exactly the one command.
    let connections = conn.connections();
    assert_eq!(connections.len(), 3);
    let hosts: Vec<String> = connections.iter().map(|c| c.1.clone()).collect();
    assert_eq!(
        hosts,
        vec![
            "192.0.2.11".to_string(),
            "192.0.2.12".to_string(),
            "192.0.2.13".to_string(),
        ]
    );
    for c in connections {
        assert_eq!(c.0, "ubuntu");
    }
    let sessions = conn.finished_sessions();
    assert_eq!(sessions.len(), 3);
    for session in sessions {
        assert_eq!(
            session.0,
            vec![Command::Bash("systemctl status kubelet".to_string())]
        );
        assert_eq!(session.1, vec![true]);
    }
}

#[test]
fn exec_on_fleet_without_filter_hits_all_nodes() {
    let nodes = ClusterNodes {
        master: vec![node("i-m", Some("192.0.2.1"))],
        worker: vec![node("i-w", Some("192.0.2.2"))],
    };
    let mut conn = ScriptedConnector::new(vec![]);
    let report = exec_on_fleet(&nodes, "admin", "uptime", None, &mut conn);
    assert_eq!(report.len(), 2);
    assert_eq!(report[0].id.as_str(), "i-m");
    assert_eq!(report[1].id.as_str(), "i-w");
    assert_eq!(conn.connections().len(), 2);
}

#[test]
fn exec_on_fleet_failed_command_is_reported_per_node() {
    let nodes = ClusterNodes {
        master: vec![],
        worker: vec![
            node("i-w1", Some("192.0.2.11")),
            node("i-w2", Some("192.0.2.12")),
        ],
    };
    // The first session's only execution fails; the second succeeds.
    let mut conn = ScriptedConnector::new(vec![vec![0], vec![]]);
    let report = exec_on_fleet(&nodes, "ubuntu", "true", Some(NodeRole::Worker), &mut conn);
    assert!(report[0].result.is_err());
    assert!(report[1].result.is_ok());
    let fleet_err = aggregate_outcomes(&report).unwrap_err();
    assert_eq!(fleet_err.failures.len(), 1);
    assert_eq!(fleet_err.failures[0].id.as_str(), "i-w1");
}
