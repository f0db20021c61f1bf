use patroni_exporter::exporter::{collect, round, Exporter, Fetched, Target};
use patroni_exporter::patroni::DiscoveryError;
use patroni_exporter::patroni_local::PatroniClient;

const REPORT: &str = r#"{"state": "running", "role": "master", "server_version": 110009, "cluster_unlocked": false, "xlog": {"location": 1}, "timeline": 1, "patroni": {"version": "1.6.5", "scope": "pg"}}"#;

#[test]
fn the_local_node_needs_no_lookup() {
    let client = PatroniClient::new("http://127.0.0.1:8008", "db-7".to_string());
    assert_eq!(client.name(), "patroni");
    assert!(client.request("anything").is_none());
    assert!(client.request("").is_none());
    for answer in [None, Some(Fetched::Failed), Some(Fetched::Body(b"x".to_vec()))] {
        let targets = client.targets(&answer).unwrap();
        assert_eq!(targets.len(), 1);
        assert_eq!(targets[0].name, "db-7");
        assert_eq!(targets[0].url, "http://127.0.0.1:8008");
    }
}

#[test]
fn the_local_node_is_reported_under_its_name() {
    let client = PatroniClient::new("http://127.0.0.1:8008", "db-7".to_string());
    let members = client.service(&None, &vec![Fetched::Body(REPORT.as_bytes().to_vec())]).unwrap();
    assert_eq!(members.len(), 1);
    assert_eq!(members[0].0, "db-7");
    assert_eq!(members[0].1.postgres_version(), 110009);
}

#[test]
fn a_node_that_does_not_answer_is_no_error() {
    let client = PatroniClient::new("http://127.0.0.1:8008", "db-7".to_string());
    assert!(client.service(&None, &vec![Fetched::Failed]).unwrap().is_empty());
    assert!(client.service(&None, &vec![]).unwrap().is_empty());
    assert!(client.service(&None, &vec![Fetched::Body(b"oops".to_vec())]).unwrap().is_empty());
    assert!(client.service(&None, &vec![Fetched::Body(b"{\"state\": \"running\"}".to_vec())]).unwrap().is_empty());
}

#[test]
fn members_are_collected_in_the_order_of_the_targets() {
    let targets = vec![
        Target { name: "a".to_string(), url: "u1".to_string() },
        Target { name: "b".to_string(), url: "u2".to_string() },
        Target { name: "a".to_string(), url: "u3".to_string() },
    ];
    let statuses = vec![
        Fetched::Body(REPORT.as_bytes().to_vec()),
        Fetched::Failed,
        Fetched::Body(REPORT.as_bytes().to_vec()),
        Fetched::Body(REPORT.as_bytes().to_vec()),
    ];
    let members = collect(&targets, &statuses);
    let names: Vec<&str> = members.iter().map(|m| m.0.as_str()).collect();
    assert_eq!(names, vec!["a", "a"]);
    assert!(collect(&vec![], &statuses).is_empty());
    assert_eq!(round(Ok(targets), &statuses).unwrap().len(), 2);
    assert_eq!(round(Err(DiscoveryError::Undecodable), &statuses).unwrap_err(), DiscoveryError::Undecodable);
    assert_eq!(round(Err(DiscoveryError::Unreachable), &statuses).unwrap_err(), DiscoveryError::Unreachable);
}
