use patroni_exporter::config::{backend, log_level, Backend, ConfigError, LogLevel, Method};
use patroni_exporter::exporter::{Exporter, Fetched, Request};

#[test]
fn more_flags_log_more() {
    assert_eq!(log_level(0), LogLevel::Info);
    assert_eq!(log_level(1), LogLevel::Debug);
    assert_eq!(log_level(2), LogLevel::Trace);
    assert_eq!(log_level(3), LogLevel::Trace);
    assert_eq!(log_level(255), LogLevel::Trace);
}

#[test]
fn a_word_names_its_method() {
    assert_eq!(Method::from_word("consul"), Method::Consul);
    assert_eq!(Method::from_word("etcd"), Method::Etcd);
    assert_eq!(Method::from_word("patroni"), Method::Patroni);
    assert_eq!(Method::from_word(""), Method::Patroni);
    assert_eq!(Method::from_word("Consul"), Method::Patroni);
    assert_eq!(Method::from_word(" etcd"), Method::Patroni);
    assert_eq!(Method::from_word("zookeeper"), Method::Patroni);
}

#[test]
fn an_option_is_read_in_any_case_and_trimmed() {
    assert_eq!(Method::parse("consul"), Method::Consul);
    assert_eq!(Method::parse("Consul"), Method::Consul);
    assert_eq!(Method::parse("  CONSUL\t\n"), Method::Consul);
    assert_eq!(Method::parse("etcd"), Method::Etcd);
    assert_eq!(Method::parse(" Etcd "), Method::Etcd);
    assert_eq!(Method::parse("\u{a0}ETCD\u{2003}"), Method::Etcd);
    assert_eq!(Method::parse("patroni"), Method::Patroni);
    assert_eq!(Method::parse("local"), Method::Patroni);
    assert_eq!(Method::parse(""), Method::Patroni);
    assert_eq!(Method::parse("con sul"), Method::Patroni);
    assert_eq!(Method::parse("consul,etcd"), Method::Patroni);
}

#[test]
fn the_catalog_and_the_store_need_their_url() {
    let url = Some("http://h:1/".to_string());
    let token = Some("t".to_string());
    assert_eq!(
        backend(Method::Consul, &None, &token, &url, "http://127.0.0.1:8008", "n".to_string()).unwrap_err(),
        ConfigError::MissingConsulUrl
    );
    assert_eq!(
        backend(Method::Etcd, &url, &token, &None, "http://127.0.0.1:8008", "n".to_string()).unwrap_err(),
        ConfigError::MissingEtcdUrl
    );
    assert!(backend(Method::Patroni, &None, &None, &None, "http://127.0.0.1:8008", "n".to_string()).is_ok());
}

#[test]
fn the_client_of_the_method_is_made() {
    let consul = Some("http://consul:8500/".to_string());
    let etcd = Some("http://etcd:2379/".to_string());
    let token = Some("t".to_string());
    match backend(Method::Consul, &consul, &token, &etcd, "http://127.0.0.1:8008", "n".to_string()).unwrap() {
        Backend::Consul(client) => {
            assert_eq!(client.token(), Some("t"));
            assert!(matches!(client.request("pg"), Some(Request::Get(url)) if url == "http://consul:8500/v1/catalog/service/pg"));
        }
        other => panic!("{:?}", other),
    }
    let chosen = backend(Method::Etcd, &consul, &token, &etcd, "http://127.0.0.1:8008", "n".to_string()).unwrap();
    assert!(matches!(chosen, Backend::Etcd(_)));
    assert_eq!(chosen.name(), "etcd");
    assert!(matches!(chosen.request("pg"), Some(Request::Post(url, _)) if url == "http://etcd:2379/v3beta/kv/range"));
    let chosen = backend(Method::Patroni, &consul, &token, &etcd, "http://127.0.0.1:8008", "n".to_string()).unwrap();
    assert!(matches!(chosen, Backend::Patroni(_)));
    assert_eq!(chosen.name(), "patroni");
    assert!(chosen.request("pg").is_none());
    let targets = chosen.targets(&None).unwrap();
    assert_eq!(targets[0].name, "n");
    assert_eq!(targets[0].url, "http://127.0.0.1:8008");
    assert!(chosen.service(&None, &vec![Fetched::Failed]).unwrap().is_empty());
    let chosen = backend(Method::Consul, &consul, &None, &None, "x", "n".to_string()).unwrap();
    assert_eq!(chosen.name(), "consul");
    assert!(chosen.targets(&Some(Fetched::Body(b"[]".to_vec()))).unwrap().is_empty());
    assert!(chosen.service(&Some(Fetched::Failed), &vec![]).is_err());
}
