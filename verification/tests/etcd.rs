use patroni_exporter::etcd::{deserialize, range_end, serialize, EtcdClient, Kv};
use patroni_exporter::exporter::{Exporter, Fetched, Request};
use patroni_exporter::json::Json;
use patroni_exporter::patroni::DiscoveryError;

const REPORT: &str = r#"{"state": "running", "role": "replica", "server_version": 130004, "cluster_unlocked": false, "xlog": {"received_location": 1}, "timeline": 5, "patroni": {"version": "2.0.1", "scope": "pg"}}"#;

fn body(text: &str) -> Option<Fetched> {
    Some(Fetched::Body(text.as_bytes().to_vec()))
}

#[test]
fn bytes_travel_as_quoted_base64() {
    assert_eq!(serialize(b"hello world"), "\"aGVsbG8gd29ybGQ=\"");
    assert_eq!(serialize(&[0, 1, 2, 255]), "\"AAEC/w==\"");
    assert_eq!(serialize(b""), "\"\"");
    assert_eq!(deserialize(&Json::Text("aGVsbG8gd29ybGQ=".to_string())), Some(b"hello world".to_vec()));
    assert_eq!(deserialize(&Json::Text("AAEC/w==".to_string())), Some(vec![0, 1, 2, 255]));
    assert_eq!(deserialize(&Json::Text("".to_string())), Some(vec![]));
    assert_eq!(deserialize(&Json::Text("not base64!".to_string())), None);
    assert_eq!(deserialize(&Json::Text("a".to_string())), None);
    assert_eq!(deserialize(&Json::Text("ab=c".to_string())), None);
    assert_eq!(deserialize(&Json::Text("aGVsbG8gd29ybGQ= ".to_string())), None);
    assert_eq!(deserialize(&Json::Number(Some(1))), None);
    assert_eq!(deserialize(&Json::Null), None);
}

#[test]
fn the_range_ends_after_the_prefix() {
    assert_eq!(range_end(b"/service/pg/members"), b"/service/pg/membert".to_vec());
    assert_eq!(range_end(b"a"), b"b".to_vec());
    assert_eq!(range_end(&[1, 255]), vec![2]);
    assert_eq!(range_end(&[1, 2, 255, 255]), vec![1, 3]);
    assert_eq!(range_end(&[255]), vec![0]);
    assert_eq!(range_end(&[255, 255]), vec![0]);
    assert_eq!(range_end(b""), vec![0]);
    assert_eq!(range_end(&[0]), vec![1]);
    assert_eq!(range_end(&[254]), vec![255]);
}

#[test]
fn the_request_posts_the_range_of_the_service() {
    let client = EtcdClient::new("http://etcd.example:2379/");
    assert_eq!(client.name(), "etcd");
    match client.request("pg") {
        Some(Request::Post(url, body)) => {
            assert_eq!(url, "http://etcd.example:2379/v3beta/kv/range");
            assert_eq!(
                body,
                "{\"key\":\"L3NlcnZpY2UvcGcvbWVtYmVycw==\",\"range_end\":\"L3NlcnZpY2UvcGcvbWVtYmVydA==\"}"
            );
        }
        other => panic!("{:?}", other),
    }
}

#[test]
fn members_are_named_by_the_end_of_their_key() {
    let client = EtcdClient::new("http://etcd.example:2379/");
    let response = r#"{"header": {"revision": "7"}, "kvs": [
        {"key": "L3NlcnZpY2UvcGcvbWVtYmVycy9ub2RlMQ==", "create_revision": "2", "value": "eyJhcGlfdXJsIjoiaHR0cDovLzEwLjAuMC4xOjgwMDgvcGF0cm9uaSIsImNvbm5fdXJsIjoicG9zdGdyZXM6Ly8xMC4wLjAuMTo1NDMyL3Bvc3RncmVzIn0="},
        {"key": "L3NlcnZpY2UvcGcvbWVtYmVycy9ub2RlMg==", "value": "eyJhcGlfdXJsIjoiaHR0cDovLzEwLjAuMC4yOjgwMDgvcGF0cm9uaSJ9"}
    ], "count": "2"}"#;
    let targets = client.targets(&body(response)).unwrap();
    assert_eq!(targets.len(), 2);
    assert_eq!(targets[0].name, "node1");
    assert_eq!(targets[0].url, "http://10.0.0.1:8008/patroni");
    assert_eq!(targets[1].name, "node2");
    assert_eq!(targets[1].url, "http://10.0.0.2:8008/patroni");
}

#[test]
fn a_key_without_a_slash_leaves_the_url_as_the_name() {
    let kv = Kv { key: b"nodekey".to_vec(), value: br#"{"api_url":"http://10.0.0.2:8008/patroni"}"#.to_vec() };
    let target = kv.target().unwrap();
    assert_eq!(target.name, "http://10.0.0.2:8008/patroni");
    assert_eq!(target.url, "http://10.0.0.2:8008/patroni");
    let kv = Kv { key: b"/service/pg/members/".to_vec(), value: br#"{"api_url":"u"}"#.to_vec() };
    assert_eq!(kv.target().unwrap().name, "");
    let kv = Kv { key: b"a/b/c".to_vec(), value: br#"{"api_url":"u"}"#.to_vec() };
    assert_eq!(kv.target().unwrap().name, "c");
    let kv = Kv { key: "/m/n\u{f8}de".as_bytes().to_vec(), value: br#"{"api_url":"u"}"#.to_vec() };
    assert_eq!(kv.target().unwrap().name, "n\u{f8}de");
}

#[test]
fn a_pair_that_registers_nothing_is_left_out() {
    assert!(Kv { key: vec![0xff, 0xfe, b'/', b'x'], value: br#"{"api_url":"u"}"#.to_vec() }.target().is_none());
    assert!(Kv { key: b"/a".to_vec(), value: b"not json".to_vec() }.target().is_none());
    assert!(Kv { key: b"/a".to_vec(), value: br#"{"conn_url":"x"}"#.to_vec() }.target().is_none());
    assert!(Kv { key: b"/a".to_vec(), value: br#"{"api_url": 5}"#.to_vec() }.target().is_none());
    let client = EtcdClient::new("http://etcd.example:2379/");
    let response = r#"{"kvs": [
        {"key": "//4veA==", "value": "eyJhcGlfdXJsIjoiaHR0cDovLzEwLjAuMC4yOjgwMDgvcGF0cm9uaSJ9"},
        {"key": "L3NlcnZpY2UvcGcvbWVtYmVycy9ub2RlMQ==", "value": "bm90IGpzb24="},
        {"key": "L3NlcnZpY2UvcGcvbWVtYmVycy9ub2RlMQ==", "value": "eyJjb25uX3VybCI6IngifQ=="},
        {"key": "L3NlcnZpY2UvcGcvbWVtYmVycy9ub2RlMg==", "value": "eyJhcGlfdXJsIjoiaHR0cDovLzEwLjAuMC4yOjgwMDgvcGF0cm9uaSJ9"}
    ]}"#;
    let targets = client.targets(&body(response)).unwrap();
    assert_eq!(targets.len(), 1);
    assert_eq!(targets[0].name, "node2");
}

#[test]
fn no_keys_is_no_error() {
    let client = EtcdClient::new("http://etcd.example:2379/");
    assert_eq!(client.targets(&body(r#"{"kvs": null}"#)).unwrap().len(), 0);
    assert_eq!(client.targets(&body(r#"{"header": {}}"#)).unwrap().len(), 0);
    assert_eq!(client.targets(&body(r#"{}"#)).unwrap().len(), 0);
    assert_eq!(client.targets(&body(r#"{"kvs": []}"#)).unwrap().len(), 0);
    let members = client.service(&body(r#"{"kvs": null}"#), &vec![]).unwrap();
    assert!(members.is_empty());
}

#[test]
fn a_store_without_an_answer_is_unreachable() {
    let client = EtcdClient::new("http://etcd.example:2379/");
    assert_eq!(client.targets(&Some(Fetched::Failed)).unwrap_err(), DiscoveryError::Unreachable);
    assert_eq!(client.targets(&None).unwrap_err(), DiscoveryError::Unreachable);
    assert_eq!(client.service(&Some(Fetched::Failed), &vec![]).unwrap_err(), DiscoveryError::Unreachable);
}

#[test]
fn an_answer_of_another_form_is_undecodable() {
    let client = EtcdClient::new("http://etcd.example:2379/");
    for text in [
        "",
        "<html>",
        "[]",
        "null",
        "7",
        r#"{"kvs": {}}"#,
        r#"{"kvs": "x"}"#,
        r#"{"kvs": [1]}"#,
        r#"{"kvs": [{"key": "L2E="}]}"#,
        r#"{"kvs": [{"value": "L2E="}]}"#,
        r#"{"kvs": [{"key": "L2E=", "value": 5}]}"#,
        r#"{"kvs": [{"key": "L2E=", "value": "%%%"}]}"#,
        r#"{"kvs": [{"key": "L", "value": "L2E="}]}"#,
    ] {
        assert_eq!(client.targets(&body(text)).unwrap_err(), DiscoveryError::Undecodable, "{}", text);
        assert_eq!(client.service(&body(text), &vec![]).unwrap_err(), DiscoveryError::Undecodable, "{}", text);
    }
}

#[test]
fn a_round_yields_the_members_that_answer() {
    let client = EtcdClient::new("http://etcd.example:2379/");
    let response = r#"{"kvs": [
        {"key": "L3NlcnZpY2UvcGcvbWVtYmVycy9ub2RlMQ==", "value": "eyJhcGlfdXJsIjoiaHR0cDovLzEwLjAuMC4xOjgwMDgvcGF0cm9uaSIsImNvbm5fdXJsIjoicG9zdGdyZXM6Ly8xMC4wLjAuMTo1NDMyL3Bvc3RncmVzIn0="},
        {"key": "L3NlcnZpY2UvcGcvbWVtYmVycy9ub2RlMg==", "value": "eyJhcGlfdXJsIjoiaHR0cDovLzEwLjAuMC4yOjgwMDgvcGF0cm9uaSJ9"}
    ]}"#;
    let statuses = vec![Fetched::Failed, Fetched::Body(REPORT.as_bytes().to_vec())];
    let members = client.service(&body(response), &statuses).unwrap();
    assert_eq!(members.len(), 1);
    assert_eq!(members[0].0, "node2");
    assert_eq!(members[0].1.timeline(), 5);
    assert_eq!(members[0].1.postgres_version(), 130004);
}

#[test]
fn an_item_of_the_answer_is_a_pair() {
    let item = Json::from_slice(br#"{"key": "L2E=", "value": "AAEC/w=="}"#).unwrap();
    let kv = Kv::from_json(&item).unwrap();
    assert_eq!(kv.key, b"/a".to_vec());
    assert_eq!(kv.value, vec![0, 1, 2, 255]);
    assert!(Kv::from_json(&Json::Null).is_none());
}
