use patroni_exporter::http::{metrics_body, route, Route};

#[test]
fn only_the_metrics_path_is_served() {
    assert_eq!(route("/metrics"), Route::Metrics);
    for path in ["/", "", "/metrics/", "/Metrics", "metrics", "/metric", "/metrics?x=1", "/health"] {
        assert_eq!(route(path), Route::NotFound, "{}", path);
    }
    assert_eq!(Route::Metrics.status(), 200);
    assert_eq!(Route::NotFound.status(), 404);
}

#[test]
fn metrics_are_served_as_text() {
    assert_eq!(metrics_body(b"# HELP patroni_role Patroni role\npatroni_role{server=\"a\"} 1\n"), "# HELP patroni_role Patroni role\npatroni_role{server=\"a\"} 1\n");
    assert_eq!(metrics_body(b""), "");
    assert_eq!(metrics_body("n\u{f8}de \u{1f600}".as_bytes()), "n\u{f8}de \u{1f600}");
    assert_eq!(metrics_body(&[b'a', 0xff, b'b']), "# Error encoding metrics");
    assert_eq!(metrics_body(&[0xc3]), "# Error encoding metrics");
    assert_eq!(metrics_body(&[0xed, 0xa0, 0x80]), "# Error encoding metrics");
}
