use patroni_exporter::consul::{services, ConsulClient, ConsulService};
use patroni_exporter::exporter::{Exporter, Fetched, Request};
use patroni_exporter::json::Json;
use patroni_exporter::patroni::DiscoveryError;

const CATALOG: &str = r#"[
    {"ID": "40e4a748-2192-161a-0510-9bf59fe950b5", "Node": "pg-1", "Address": "10.0.0.1", "Datacenter": "dc1",
     "ServiceAddress": "10.0.0.1", "ServicePort": 8008, "ServiceName": "patroni", "ServiceTags": ["master"]},
    {"ID": "b4c0a8c2-0a44-4f0e-9f3b-7a1b1a3b2c11", "Node": "pg-2", "Address": "10.0.0.2", "Datacenter": "dc1",
     "ServiceAddress": "10.0.0.2", "ServicePort": 8009, "ServiceName": "patroni", "ServiceTags": []},
    {"ID": "0f8fad5bd9cb469fa16570867728950e", "Node": "pg-3", "Address": "10.0.0.3", "Datacenter": "dc2",
     "ServiceAddress": "10.0.0.3", "ServicePort": 65535, "ServiceName": "patroni"}
]"#;

fn report(role: &str, timeline: u32) -> Fetched {
    Fetched::Body(
        format!(
            r#"{{"state": "running", "role": "{}", "server_version": 140002, "cluster_unlocked": false, "xlog": {{}}, "timeline": {}, "patroni": {{"version": "2.1.0", "scope": "pg"}}}}"#,
            role, timeline
        )
        .into_bytes(),
    )
}

fn body(text: &str) -> Option<Fetched> {
    Some(Fetched::Body(text.as_bytes().to_vec()))
}

fn item(id: &str, node: &str, datacenter: &str, address: &str, port: &str) -> String {
    format!(
        r#"{{"ID": {}, "Node": {}, "Datacenter": {}, "ServiceAddress": {}, "ServicePort": {}}}"#,
        id, node, datacenter, address, port
    )
}

#[test]
fn the_request_gets_the_service_from_the_catalog() {
    let client = ConsulClient::new("http://consul.example:8500/", &Some("secret".to_string()));
    assert_eq!(client.name(), "consul");
    assert_eq!(client.token(), Some("secret"));
    match client.request("patroni") {
        Some(Request::Get(url)) => assert_eq!(url, "http://consul.example:8500/v1/catalog/service/patroni"),
        other => panic!("{:?}", other),
    }
    let client = ConsulClient::new("http://127.0.0.1:8500/", &None);
    assert_eq!(client.token(), None);
    match client.request("") {
        Some(Request::Get(url)) => assert_eq!(url, "http://127.0.0.1:8500/v1/catalog/service/"),
        other => panic!("{:?}", other),
    }
}

#[test]
fn every_instance_is_asked_at_its_address_and_port() {
    let client = ConsulClient::new("http://consul.example:8500/", &None);
    let targets = client.targets(&body(CATALOG)).unwrap();
    assert_eq!(targets.len(), 3);
    assert_eq!(targets[0].name, "pg-1");
    assert_eq!(targets[0].url, "http://10.0.0.1:8008/");
    assert_eq!(targets[1].name, "pg-2");
    assert_eq!(targets[1].url, "http://10.0.0.2:8009/");
    assert_eq!(targets[2].name, "pg-3");
    assert_eq!(targets[2].url, "http://10.0.0.3:65535/");
    assert_eq!(client.targets(&body("[]")).unwrap().len(), 0);
}

#[test]
fn ports_are_written_in_decimal() {
    for (port, text) in [(0u16, "0"), (7, "7"), (10, "10"), (80, "80"), (100, "100"), (8008, "8008"), (10000, "10000"), (65535, "65535")] {
        let service = ConsulService {
            id: "40e4a748-2192-161a-0510-9bf59fe950b5".to_string(),
            node: "n".to_string(),
            datacenter: "dc".to_string(),
            service_address: "192.168.7.20".to_string(),
            service_port: port,
        };
        assert_eq!(service.status_url(), format!("http://192.168.7.20:{}/", text));
        assert_eq!(service.target().name, "n");
    }
}

#[test]
fn an_instance_is_decoded_from_its_item() {
    let good = item("\"40e4a748-2192-161a-0510-9bf59fe950b5\"", "\"pg-1\"", "\"dc1\"", "\"10.0.0.1\"", "8008");
    let service = ConsulService::from_json(&Json::from_slice(good.as_bytes()).unwrap()).unwrap();
    assert_eq!(service.id, "40e4a748-2192-161a-0510-9bf59fe950b5");
    assert_eq!(service.node, "pg-1");
    assert_eq!(service.datacenter, "dc1");
    assert_eq!(service.service_address, "10.0.0.1");
    assert_eq!(service.service_port, 8008);
    let v6 = item("\"40e4a748-2192-161a-0510-9bf59fe950b5\"", "\"pg-1\"", "\"dc1\"", "\"fd00::17\"", "8008");
    let service = ConsulService::from_json(&Json::from_slice(v6.as_bytes()).unwrap()).unwrap();
    assert_eq!(service.status_url(), "http://fd00::17:8008/");
}

#[test]
fn a_malformed_instance_makes_the_answer_undecodable() {
    let client = ConsulClient::new("http://consul.example:8500/", &None);
    let id = "\"40e4a748-2192-161a-0510-9bf59fe950b5\"";
    for bad in [
        item("\"not-a-uuid\"", "\"n\"", "\"dc\"", "\"10.0.0.1\"", "8008"),
        item("\"40e4a748-2192-161a-0510-9bf59fe950b\"", "\"n\"", "\"dc\"", "\"10.0.0.1\"", "8008"),
        item("7", "\"n\"", "\"dc\"", "\"10.0.0.1\"", "8008"),
        item(id, "null", "\"dc\"", "\"10.0.0.1\"", "8008"),
        item(id, "\"n\"", "3", "\"10.0.0.1\"", "8008"),
        item(id, "\"n\"", "\"dc\"", "\"pg-1.example\"", "8008"),
        item(id, "\"n\"", "\"dc\"", "\"\"", "8008"),
        item(id, "\"n\"", "\"dc\"", "\"10.0.0.1\"", "65536"),
        item(id, "\"n\"", "\"dc\"", "\"10.0.0.1\"", "-1"),
        item(id, "\"n\"", "\"dc\"", "\"10.0.0.1\"", "\"8008\""),
        item(id, "\"n\"", "\"dc\"", "\"10.0.0.1\"", "80.5"),
        r#"{"ID": "40e4a748-2192-161a-0510-9bf59fe950b5", "Node": "n", "Datacenter": "dc", "ServiceAddress": "10.0.0.1"}"#.to_string(),
        r#"{"Node": "n", "Datacenter": "dc", "ServiceAddress": "10.0.0.1", "ServicePort": 1}"#.to_string(),
        "5".to_string(),
    ] {
        let good = item(id, "\"n\"", "\"dc\"", "\"10.0.0.1\"", "8008");
        let text = format!("[{}, {}]", good, bad);
        assert_eq!(client.targets(&body(&text)).unwrap_err(), DiscoveryError::Undecodable, "{}", bad);
        assert!(services(&Json::from_slice(text.as_bytes()).unwrap()).is_none());
    }
    for text in ["", "{}", "null", "{\"ID\": 1}", "[", "\"x\""] {
        assert_eq!(client.targets(&body(text)).unwrap_err(), DiscoveryError::Undecodable, "{}", text);
    }
}

#[test]
fn uuids_in_every_form_are_taken() {
    let client = ConsulClient::new("http://consul.example:8500/", &None);
    for id in [
        "\"40e4a748-2192-161a-0510-9bf59fe950b5\"",
        "\"40E4A748-2192-161A-0510-9BF59FE950B5\"",
        "\"40e4a7482192161a05109bf59fe950b5\"",
        "\"urn:uuid:40e4a748-2192-161a-0510-9bf59fe950b5\"",
    ] {
        let text = format!("[{}]", item(id, "\"n\"", "\"dc\"", "\"10.0.0.1\"", "8008"));
        assert_eq!(client.targets(&body(&text)).unwrap().len(), 1, "{}", id);
    }
}

#[test]
fn a_catalog_without_an_answer_is_unreachable() {
    let client = ConsulClient::new("http://consul.example:8500/", &None);
    assert_eq!(client.targets(&Some(Fetched::Failed)).unwrap_err(), DiscoveryError::Unreachable);
    assert_eq!(client.targets(&None).unwrap_err(), DiscoveryError::Unreachable);
    assert_eq!(client.service(&None, &vec![report("master", 1)]).unwrap_err(), DiscoveryError::Unreachable);
}

#[test]
fn a_member_that_fails_leaves_the_others() {
    let client = ConsulClient::new("http://consul.example:8500/", &None);
    let all = client
        .service(&body(CATALOG), &vec![report("master", 3), report("replica", 3), report("replica", 2)])
        .unwrap();
    assert_eq!(all.len(), 3);
    assert_eq!(all[0].0, "pg-1");
    assert_eq!(all[1].0, "pg-2");
    assert_eq!(all[2].0, "pg-3");
    assert!(all[0].1.is_master());
    assert!(!all[1].1.is_master());
    assert_eq!(all[2].1.timeline(), 2);
    for failed in 0..3 {
        for failure in [Fetched::Failed, Fetched::Body(b"<html>".to_vec()), Fetched::Body(b"{\"state\": \"unknown\"}".to_vec())] {
            let mut statuses = vec![report("master", 3), report("replica", 3), report("replica", 2)];
            statuses[failed] = failure;
            let members = client.service(&body(CATALOG), &statuses).unwrap();
            let names: Vec<&str> = members.iter().map(|m| m.0.as_str()).collect();
            let expected: Vec<&str> = ["pg-1", "pg-2", "pg-3"].iter().enumerate().filter(|(i, _)| *i != failed).map(|(_, n)| *n).collect();
            assert_eq!(names, expected);
        }
    }
    let none = client.service(&body(CATALOG), &vec![Fetched::Failed, Fetched::Failed, Fetched::Failed]).unwrap();
    assert!(none.is_empty());
}

#[test]
fn answers_that_are_missing_count_as_failed() {
    let client = ConsulClient::new("http://consul.example:8500/", &None);
    let members = client.service(&body(CATALOG), &vec![report("master", 3)]).unwrap();
    assert_eq!(members.len(), 1);
    assert_eq!(members[0].0, "pg-1");
    let members = client.service(&body(CATALOG), &vec![]).unwrap();
    assert!(members.is_empty());
    let members = client
        .service(&body("[]"), &vec![report("master", 3)])
        .unwrap();
    assert!(members.is_empty());
}
