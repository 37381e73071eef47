use eip_operator::egress::label_egress_nodes_ready;
use eip_operator::eip::{Eip, EipSelector, EipStatus};
use eip_operator::error::Error;
use eip_operator::kube_ext::Node;
use eip_operator::labels::{
    add_gateway_status_label, remove_gateway_status_label, EGRESS_NODE_STATUS_LABEL,
};
use eip_operator::operation::{Operation, Progress, Reply, Request};
use eip_operator::string_map::StringMap;

fn s(text: &str) -> String {
    text.to_owned()
}

fn eip(allocation_id: Option<&str>) -> Eip {
    Eip {
        name: Some(s("e")),
        namespace: Some(s("apps")),
        uid: None,
        resource_version: None,
        selector: EipSelector::Node { selector: StringMap::new() },
        status: Some(EipStatus {
            allocation_id: allocation_id.map(s),
            public_ip_address: None,
            association_id: None,
            resource_id: None,
        }),
    }
}

fn node(name: Option<&str>, uid: &str) -> Node {
    Node { name: name.map(s), uid: Some(s(uid)), labels: None, spec: None, status: None }
}

fn drive<M: Operation>(
    start: Progress<M, M::Outcome>,
    answers: Vec<Result<Reply, Error>>,
) -> (Vec<String>, Option<Result<M::Outcome, Error>>) {
    let mut asked = Vec::new();
    let mut answers = answers.into_iter();
    let mut progress = start;
    loop {
        match progress {
            Progress::Finished(outcome) => {
                assert!(answers.next().is_none());
                return (asked, Some(outcome));
            }
            Progress::Pending(operation) => {
                asked.push(format!("{:?}", operation.request()));
                match answers.next() {
                    None => return (asked, None),
                    Some(answer) => {
                        assert!(operation.accepts(&answer));
                        progress = operation.resume(answer);
                    }
                }
            }
        }
    }
}

fn shown(requests: Vec<Request>) -> Vec<String> {
    requests.iter().map(|r| format!("{r:?}")).collect()
}

fn unlabel(name: &str) -> Request {
    Request::ApplyToNode { name: s(name), patch: remove_gateway_status_label() }
}

#[test]
fn the_label_moves_to_the_node_with_the_address() {
    let (asked, outcome) = drive(
        label_egress_nodes_ready(&eip(Some("eipalloc-1")), &Some(node(Some("n-1"), "u-1"))),
        vec![
            Ok(Reply::Nodes(vec![
                node(Some("n-1"), "u-1"),
                node(Some("n-2"), "u-2"),
                node(Some("n-3"), "u-3"),
            ])),
            Ok(Reply::Done),
            Ok(Reply::Done),
            Ok(Reply::Done),
        ],
    );
    assert_eq!(
        asked,
        shown(vec![
            Request::ListNodes {
                label_selector: format!("{EGRESS_NODE_STATUS_LABEL}=eipalloc-1"),
            },
            Request::ApplyToNode { name: s("n-1"), patch: add_gateway_status_label("eipalloc-1") },
            unlabel("n-2"),
            unlabel("n-3"),
        ])
    );
    assert!(matches!(outcome, Some(Ok(()))));
}

#[test]
fn the_node_with_the_address_is_labelled_though_no_other_is() {
    let (asked, outcome) = drive(
        label_egress_nodes_ready(&eip(Some("eipalloc-1")), &Some(node(Some("n-1"), "u-1"))),
        vec![Ok(Reply::Nodes(Vec::new())), Ok(Reply::Done)],
    );
    assert_eq!(asked.len(), 2);
    assert!(matches!(outcome, Some(Ok(()))));
}

#[test]
fn without_a_node_every_label_is_removed() {
    let (asked, outcome) = drive(
        label_egress_nodes_ready(&eip(Some("eipalloc-1")), &None),
        vec![
            Ok(Reply::Nodes(vec![node(Some("n-1"), "u-1"), node(Some("n-2"), "u-2")])),
            Ok(Reply::Done),
            Ok(Reply::Done),
        ],
    );
    assert_eq!(asked[1..], shown(vec![unlabel("n-1"), unlabel("n-2")])[..]);
    assert!(matches!(outcome, Some(Ok(()))));
}

#[test]
fn an_eip_without_an_address_has_no_label() {
    let (_, outcome) = drive(label_egress_nodes_ready(&eip(None), &None), Vec::new());
    assert!(matches!(outcome, Some(Err(Error::MissingAllocationId))));
}

#[test]
fn a_nameless_node_cannot_lose_the_label() {
    match label_egress_nodes_ready(&eip(Some("a")), &Some(node(Some("n-1"), "u-1"))) {
        Progress::Pending(operation) => {
            assert!(!operation.accepts(&Ok(Reply::Nodes(vec![node(None, "u-2")]))));
            assert!(operation.accepts(&Ok(Reply::Nodes(vec![node(None, "u-1")]))));
        }
        Progress::Finished(_) => panic!("finished at once"),
    }
}

#[test]
fn the_label_that_is_set_is_the_label_that_is_looked_for() {
    let start = label_egress_nodes_ready(&eip(Some("eipalloc-1")), &Some(node(Some("n"), "u")));
    let (asked, outcome) =
        drive(start, vec![Ok(Reply::Nodes(Vec::new())), Ok(Reply::Done)]);
    assert!(matches!(outcome, Some(Ok(()))));
    assert_eq!(
        asked[0],
        format!("{:?}", Request::ListNodes {
            label_selector: format!("{EGRESS_NODE_STATUS_LABEL}=eipalloc-1"),
        })
    );
    assert_eq!(
        asked[1],
        format!("{:?}", Request::ApplyToNode {
            name: s("n"),
            patch: add_gateway_status_label("eipalloc-1"),
        })
    );
    let patch = add_gateway_status_label("eipalloc-1");
    assert_eq!(patch.labels, vec![(s(EGRESS_NODE_STATUS_LABEL), Some(s("eipalloc-1")))]);
}
