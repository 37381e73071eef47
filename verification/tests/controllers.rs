use eip_operator::controller::eip::Context as EipContext;
use eip_operator::controller::node::Context as NodeContext;
use eip_operator::controller::pod::Context as PodContext;
use eip_operator::controller::{Context, Controller, Event, ListParams, Reconcile};
use eip_operator::eip::{Eip, EipSelector};
use eip_operator::kube_ext::{Node, Pod};
use eip_operator::operation::{Action, ApiScope, Operation, Progress, Request};
use eip_operator::string_map::StringMap;

fn s(text: &str) -> String {
    text.to_owned()
}

fn pod(namespace: Option<&str>) -> Pod {
    Pod {
        name: Some(s("web-0")),
        namespace: namespace.map(s),
        uid: None,
        labels: None,
        annotations: None,
        finalizers: Vec::new(),
        spec: None,
        status: None,
    }
}

fn node() -> Node {
    Node { name: Some(s("n")), uid: None, labels: None, spec: None, status: None }
}

fn eip() -> Eip {
    Eip {
        name: Some(s("e")),
        namespace: Some(s("apps")),
        uid: Some(s("uid-1")),
        resource_version: None,
        selector: EipSelector::Pod { pod_name: s("web-0") },
        status: None,
    }
}

#[test]
fn finalizers_differ_by_kind() {
    assert_eq!(PodContext::finalizer_name(), "eip.materialize.cloud/disassociate");
    assert_eq!(NodeContext::finalizer_name(), "eip.materialize.cloud/disassociate_node");
    assert_eq!(EipContext::finalizer_name(), "eip.materialize.cloud/destroy");
}

#[test]
fn resources_are_looked_up_in_their_own_namespace() {
    let lp = || ListParams { labels: None };
    let one = Controller::namespaced("apps", lp(), PodContext::new());
    assert!(matches!(&one.watched, ApiScope::Namespaced(n) if n == "apps"));
    assert!(matches!(one.make_api(&pod(Some("other"))), ApiScope::Namespaced(n) if n == "other"));
    let all = Controller::namespaced_all(lp(), PodContext::new());
    assert!(matches!(all.watched, ApiScope::All));
    assert!(matches!(all.make_api(&pod(Some("other"))), ApiScope::Namespaced(n) if n == "other"));
    let cluster = Controller::cluster(
        ListParams { labels: Some(s("a=b")) },
        NodeContext::new(None),
    );
    assert!(matches!(cluster.watched, ApiScope::All));
    assert_eq!(cluster.list_params.labels, Some(s("a=b")));
    assert!(matches!(cluster.make_api(&node()), ApiScope::All));
}

#[test]
fn resources_are_reconciled_by_what_happens_to_them() {
    let context = EipContext::new(s("prod"), StringMap::new());
    match context.reconcile(&Event::Apply(eip())) {
        Progress::Pending(operation) => {
            assert!(matches!(operation, Reconcile::Applying(_)));
            assert!(format!("{:?}", operation.request()).contains("uid-1"));
        }
        Progress::Finished(_) => panic!("finished at once"),
    }
    match context.reconcile(&Event::Cleanup(eip())) {
        Progress::Pending(operation) => assert!(matches!(operation, Reconcile::CleaningUp(_))),
        Progress::Finished(_) => panic!("finished at once"),
    }
    match PodContext::new().reconcile(&Event::Apply(pod(Some("apps")))) {
        Progress::Finished(Ok(Some(action))) => {
            assert_eq!(action, Action::requeue_secs(3));
        }
        _ => panic!("a pod without a node is tried again"),
    }
    for (namespace, scope) in [
        (None, ApiScope::All),
        (Some(s("apps")), ApiScope::Namespaced(s("apps"))),
    ] {
        match NodeContext::new(namespace).reconcile(&Event::Cleanup(node())) {
            Progress::Pending(operation) => {
                assert_eq!(
                    format!("{:?}", operation.request()),
                    format!("{:?}", Request::ListEips { scope })
                );
            }
            Progress::Finished(_) => panic!("finished at once"),
        }
    }
}

#[test]
fn names_are_looked_for() {
    assert!(PodContext::can_apply(&pod(Some("apps"))));
    assert!(PodContext::can_cleanup(&pod(Some("apps"))));
    assert!(!PodContext::can_apply(&pod(None)));
    assert!(!PodContext::can_cleanup(&pod(None)));
    assert!(NodeContext::can_apply(&node()));
    assert!(NodeContext::can_cleanup(&node()));
    let mut nameless = eip();
    nameless.uid = Some(s("uid"));
    assert!(EipContext::can_apply(&nameless));
    nameless.name = None;
    assert!(!EipContext::can_apply(&nameless));
    assert!(EipContext::can_cleanup(&nameless));
    nameless.uid = None;
    assert!(EipContext::can_apply(&nameless));
    nameless.namespace = None;
    assert!(!EipContext::can_apply(&nameless));
    assert_eq!(PodContext::resource_namespace(&pod(Some("apps"))), Some(s("apps")));
    assert_eq!(NodeContext::resource_namespace(&node()), None);
    assert_eq!(EipContext::resource_namespace(&eip()), Some(s("apps")));
}

#[test]
fn times_are_random_within_their_bounds() {
    let context = PodContext::new();
    let mut seen = Vec::new();
    for _ in 0..200 {
        let millis = context.on_success().requeue_after_millis.unwrap();
        assert!((2400000..3600000).contains(&millis));
        assert_eq!(millis % 1000, 0);
        seen.push(millis);
        let millis = context.on_error().requeue_after_millis.unwrap();
        assert!((4000..8000).contains(&millis));
        seen.push(millis);
    }
    seen.sort();
    seen.dedup();
    assert!(seen.len() > 2);
    let asked_for = Action { requeue_after_millis: Some(7) };
    assert_eq!(context.on_outcome(Some(asked_for)), asked_for);
    assert!(context.on_outcome(None).requeue_after_millis.unwrap() >= 2400000);
}
