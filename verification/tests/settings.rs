use eip_operator::error::Error;
use eip_operator::operation::ApiScope;
use eip_operator::settings::{
    legacy_settings, operator_settings, tracing_settings, TracingVariables,
};
use eip_operator::telemetry::{endpoint_from, read_destination, read_headers, targets_from};
use tracing_subscriber::filter::{LevelFilter, Targets};

fn s(text: &str) -> String {
    text.to_owned()
}

fn variables(endpoint: Option<&str>) -> TracingVariables {
    TracingVariables {
        endpoint: endpoint.map(s),
        headers: None,
        toplevel_fields: None,
        sample_rate: None,
        level_targets: None,
    }
}

#[test]
fn the_operator_works_in_one_namespace_or_in_all() {
    let settings = operator_settings(
        Some(s("apps")),
        s("prod"),
        Some(s("{\"tag1\": \"value1\", \"tag2\": \"value2\"}")),
    )
    .unwrap();
    assert_eq!(settings.default_tags.get("tag2"), Some(&s("value2")));
    let pods = settings.pod_controller();
    assert!(matches!(&pods.watched, ApiScope::Namespaced(n) if n == "apps"));
    assert!(pods.is_namespaced);
    assert_eq!(pods.list_params.labels, Some(s("eip.materialize.cloud/manage")));
    let nodes = settings.node_controller();
    assert!(matches!(nodes.watched, ApiScope::All));
    assert!(!nodes.is_namespaced);
    assert_eq!(nodes.list_params.labels, Some(s("eip.materialize.cloud/manage")));
    assert_eq!(nodes.context.namespace, Some(s("apps")));
    let eips = settings.eip_controller();
    assert!(matches!(&eips.watched, ApiScope::Namespaced(n) if n == "apps"));
    assert_eq!(eips.list_params.labels, None);
    assert_eq!(eips.context.cluster_name, "prod");
    assert_eq!(eips.context.default_tags.get("tag1"), Some(&s("value1")));
    let everywhere = operator_settings(None, s("prod"), None).unwrap();
    assert!(matches!(everywhere.pod_controller().watched, ApiScope::All));
    assert!(everywhere.pod_controller().is_namespaced);
    assert!(matches!(everywhere.eip_controller().watched, ApiScope::All));
    assert_eq!(everywhere.default_tags.pairs().len(), 0);
}

#[test]
fn default_tags_have_to_be_a_json_object() {
    assert!(matches!(
        operator_settings(None, s("prod"), Some(s("team=infra"))),
        Err(Error::SerdeJson { .. })
    ));
    assert!(matches!(
        legacy_settings(None, s("prod"), Some(s("[]"))),
        Err(Error::SerdeJson { .. })
    ));
}

#[test]
fn without_eip_resources_the_default_namespace_is_default() {
    let data = legacy_settings(None, s("prod"), None).unwrap();
    assert_eq!(data.namespace, "default");
    assert_eq!(data.cluster_name, "prod");
    assert_eq!(data.default_tags.pairs().len(), 0);
    let data = legacy_settings(Some(s("apps")), s("prod"), Some(s("{\"a\":\"b\"}"))).unwrap();
    assert_eq!(data.namespace, "apps");
    assert_eq!(data.default_tags.get("a"), Some(&s("b")));
}

#[test]
fn traces_are_sent_only_where_there_is_an_endpoint() {
    assert!(tracing_settings(variables(None), "svc").unwrap().is_none());
    let mut broken = variables(None);
    broken.headers = Some(s("?"));
    assert!(tracing_settings(broken, "svc").unwrap().is_none());
}

#[test]
fn traces_have_defaults() {
    let t = tracing_settings(variables(Some("http://otel")), "svc").unwrap().unwrap();
    assert_eq!(t.endpoint.uri().to_string(), "http://otel/");
    assert_eq!(t.headers.len(), 0);
    assert_eq!(t.attributes, vec![(s("service.name"), s("svc"))]);
    assert_eq!(t.sample_rate, "0.05");
    assert_eq!(t.level_targets, Targets::new().with_default(LevelFilter::DEBUG));
}

#[test]
fn traces_are_sent_as_told() {
    let t = tracing_settings(
        TracingVariables {
            endpoint: Some(s("https://otel:4317/v1")),
            headers: Some(s("{\"X-Key\":\"1\"}")),
            toplevel_fields: Some(s("{\"region\":\"us-east-1\"}")),
            sample_rate: Some(s("1.0")),
            level_targets: Some(s("warn,eip_operator=info")),
        },
        "svc",
    )
    .unwrap()
    .unwrap();
    assert_eq!(t.endpoint.uri().to_string(), "https://otel:4317/v1");
    assert_eq!(t.headers, vec![(s("x-key"), s("1"))]);
    assert_eq!(
        t.attributes,
        vec![(s("region"), s("us-east-1")), (s("service.name"), s("svc"))]
    );
    assert_eq!(t.sample_rate, "1.0");
    assert_eq!(
        t.level_targets,
        Targets::new()
            .with_default(LevelFilter::WARN)
            .with_target("eip_operator", LevelFilter::INFO)
    );
}

#[test]
fn headers_and_fields_have_to_be_json_objects() {
    let mut v = variables(Some("http://otel"));
    v.headers = Some(s("x"));
    assert!(matches!(tracing_settings(v, "svc"), Err(Error::SerdeJson { .. })));
    let mut v = variables(Some("http://otel"));
    v.toplevel_fields = Some(s("x"));
    assert!(matches!(tracing_settings(v, "svc"), Err(Error::SerdeJson { .. })));
}

fn pairs(list: &[(&str, &str)]) -> Vec<(String, String)> {
    list.iter().map(|(k, v)| (s(k), s(v))).collect()
}

#[test]
fn a_filter_or_an_endpoint_that_cannot_be_read_is_an_error() {
    match read_destination("a=b=c", s("::")) {
        Err(Error::TracingSubscriberParse { source }) => {
            assert_eq!(
                source,
                "invalid filter directive: too many '=' in filter directive, expected 0 or 1"
            );
        }
        _ => panic!("the filter was read"),
    }
    match read_destination("DEBUG", s("not a place")) {
        Err(Error::TonicTransport { source }) => assert_eq!(source, "invalid URI"),
        _ => panic!("the endpoint was read"),
    }
    let (targets, endpoint) = read_destination("error", s("http://otel:1")).unwrap();
    assert_eq!(targets, Targets::new().with_default(LevelFilter::ERROR));
    assert_eq!(endpoint.uri().to_string(), "http://otel:1/");
    assert!(matches!(
        targets_from(Err(s("no"))),
        Err(Error::TracingSubscriberParse { source }) if source == "no"
    ));
    assert!(matches!(
        endpoint_from(Err(s("no"))),
        Err(Error::TonicTransport { source }) if source == "no"
    ));
    assert!(targets_from(Ok(Targets::new())).is_ok());
}

#[test]
fn headers_are_read_in_order() {
    let read = read_headers(&pairs(&[("X-Honeycomb-Team", "k 1"), ("host", "a\tb \u{e9}")]));
    assert_eq!(
        read.unwrap(),
        pairs(&[("x-honeycomb-team", "k 1"), ("host", "a\tb \u{e9}")])
    );
    let long = "a".repeat(65535);
    assert!(read_headers(&pairs(&[(&long, "")])).is_ok());
    let too_long = "a".repeat(65536);
    for key in ["", "a b", "a:b", "a-bin", "A-BIN", "\u{e9}", "a\"b", &too_long] {
        match read_headers(&pairs(&[("ok", "v"), (key, "\n")])) {
            Err(Error::TonicInvalidMetadataKey { source }) => {
                assert_eq!(source, "invalid gRPC metadata key name");
            }
            _ => panic!("the key was accepted: {key}"),
        }
    }
    for value in ["\n", "a\u{7f}", "\u{0}", "\r"] {
        match read_headers(&pairs(&[("ok", value), ("", "")])) {
            Err(Error::TonicInvalidMetadataValue { source }) => {
                assert_eq!(source, "failed to parse metadata value");
            }
            _ => panic!("the value was accepted"),
        }
    }
    assert!(read_headers(&pairs(&[("!#$%&'*+-.^_`|~09azAZ", "")])).is_ok());
}

#[test]
fn what_is_told_about_traces_is_read_in_order() {
    let told = || TracingVariables {
        endpoint: Some(s("not a place")),
        headers: Some(s("{\"a b\":\"\"}")),
        toplevel_fields: Some(s("{}")),
        sample_rate: None,
        level_targets: Some(s("a=b=c")),
    };
    let mut v = told();
    v.toplevel_fields = Some(s("x"));
    assert!(matches!(tracing_settings(v, "svc"), Err(Error::SerdeJson { .. })));
    assert!(matches!(
        tracing_settings(told(), "svc"),
        Err(Error::TracingSubscriberParse { .. })
    ));
    let mut v = told();
    v.level_targets = None;
    assert!(matches!(tracing_settings(v, "svc"), Err(Error::TonicTransport { .. })));
    let mut v = told();
    v.level_targets = None;
    v.endpoint = Some(s("http://otel"));
    assert!(matches!(tracing_settings(v, "svc"), Err(Error::TonicInvalidMetadataKey { .. })));
    let mut v = told();
    v.level_targets = None;
    v.endpoint = Some(s("http://otel"));
    v.headers = Some(s("{\"a\":\"\\n\"}"));
    assert!(matches!(tracing_settings(v, "svc"), Err(Error::TonicInvalidMetadataValue { .. })));
}
