use eip_operator::aws::{new_tag, tag_filter, Address};
use eip_operator::eip::{Eip, EipSelector};
use eip_operator::error::{Error, ServiceError};
use eip_operator::kube_ext::Pod;
use eip_operator::operation::{
    api_scope, ApiScope, Operation, PatchOperation, Progress, Reply, Request,
};
use eip_operator::orphans::OrphanCleanup;
use eip_operator::tasks::{release_tasks, Task, TaskList};

fn s(text: &str) -> String {
    text.to_owned()
}

fn address(id: &str, association_id: Option<&str>, uid: Option<&str>) -> Address {
    Address {
        allocation_id: Some(s(id)),
        association_id: association_id.map(s),
        public_ip: None,
        network_interface_id: None,
        private_ip_address: None,
        tags: uid.map(|u| vec![new_tag("eip.materialize.cloud/eip_uid", u)]),
    }
}

fn eip(uid: Option<&str>) -> Eip {
    Eip {
        name: Some(s("e")),
        namespace: Some(s("apps")),
        uid: uid.map(s),
        resource_version: None,
        selector: EipSelector::Pod { pod_name: s("p") },
        status: None,
    }
}

fn pod(name: Option<&str>, finalizers: Vec<&str>) -> Pod {
    Pod {
        name: name.map(s),
        namespace: Some(s("apps")),
        uid: None,
        labels: None,
        annotations: None,
        finalizers: finalizers.into_iter().map(s).collect(),
        spec: None,
        status: None,
    }
}

fn drive<M: Operation>(
    start: Progress<M, M::Outcome>,
    answers: Vec<Result<Reply, Error>>,
) -> (Vec<String>, Option<Result<M::Outcome, Error>>) {
    let mut asked = Vec::new();
    let mut answers = answers.into_iter();
    let mut progress = start;
    loop {
        match progress {
            Progress::Finished(outcome) => {
                assert!(answers.next().is_none());
                return (asked, Some(outcome));
            }
            Progress::Pending(operation) => {
                asked.push(format!("{:?}", operation.request()));
                match answers.next() {
                    None => return (asked, None),
                    Some(answer) => {
                        assert!(operation.accepts(&answer));
                        progress = operation.resume(answer);
                    }
                }
            }
        }
    }
}

fn shown(requests: Vec<Request>) -> Vec<String> {
    requests.iter().map(|r| format!("{r:?}")).collect()
}

const FINALIZER: &str = "eip.aws.materialize.com/disassociate";

#[test]
fn addresses_without_a_living_eip_are_given_back() {
    let scope = || ApiScope::Namespaced(s("apps"));
    let (asked, outcome) = drive(
        OrphanCleanup::start("prod", Some(s("apps"))),
        vec![
            Ok(Reply::Addresses(Some(vec![
                address("live", Some("as-0"), Some("u-1")),
                address("dead", Some("as-1"), Some("u-2")),
            ]))),
            Ok(Reply::Addresses(Some(vec![address("untagged", None, None)]))),
            Ok(Reply::Eips(vec![eip(None), eip(Some("u-1"))])),
            Ok(Reply::Disassociated(Ok(()))),
            Ok(Reply::Done),
            Ok(Reply::Done),
            Ok(Reply::Pods(vec![
                pod(Some("p-0"), vec!["other"]),
                pod(Some("p-1"), vec!["other", FINALIZER, FINALIZER]),
                pod(None, Vec::new()),
            ])),
            Ok(Reply::Done),
        ],
    );
    assert_eq!(
        asked,
        shown(vec![
            Request::DescribeAddresses {
                filters: vec![
                    tag_filter("eip.materialize.cloud/cluster_name", "prod"),
                    tag_filter("eip.materialize.cloud/namespace", "apps"),
                ],
            },
            Request::DescribeAddresses {
                filters: vec![tag_filter("eip.aws.materialize.com/cluster_name", "prod")],
            },
            Request::ListEips { scope: scope() },
            Request::DisassociateAddress { association_id: s("as-1") },
            Request::ReleaseAddress { allocation_id: s("dead") },
            Request::ReleaseAddress { allocation_id: s("untagged") },
            Request::ListPods {
                scope: scope(),
                label_selector: s("eip.aws.materialize.com/manage"),
            },
            Request::PatchPod {
                scope: scope(),
                name: s("p-1"),
                operations: vec![
                    PatchOperation::Test {
                        path: s("/metadata/finalizers/1"),
                        value: s(FINALIZER),
                    },
                    PatchOperation::Remove { path: s("/metadata/finalizers/1") },
                ],
            },
        ])
    );
    assert!(matches!(outcome, Some(Ok(()))));
}

#[test]
fn without_a_namespace_the_whole_cluster_is_looked_at() {
    let (asked, outcome) = drive(
        OrphanCleanup::start("prod", None),
        vec![
            Ok(Reply::Addresses(Some(Vec::new()))),
            Ok(Reply::Addresses(Some(Vec::new()))),
            Ok(Reply::Eips(Vec::new())),
            Ok(Reply::Pods(Vec::new())),
        ],
    );
    assert_eq!(
        asked,
        shown(vec![
            Request::DescribeAddresses {
                filters: vec![tag_filter("eip.materialize.cloud/cluster_name", "prod")],
            },
            Request::DescribeAddresses {
                filters: vec![tag_filter("eip.aws.materialize.com/cluster_name", "prod")],
            },
            Request::ListEips { scope: ApiScope::All },
            Request::ListPods {
                scope: ApiScope::All,
                label_selector: s("eip.aws.materialize.com/manage"),
            },
        ])
    );
    assert!(matches!(outcome, Some(Ok(()))));
    assert_eq!(format!("{:?}", api_scope(&None)), format!("{:?}", ApiScope::All));
}

#[test]
fn a_nameless_pod_with_the_finalizer_ends_the_list() {
    let (asked, outcome) = drive(
        OrphanCleanup::start("prod", None),
        vec![
            Ok(Reply::Addresses(Some(Vec::new()))),
            Ok(Reply::Addresses(Some(Vec::new()))),
            Ok(Reply::Eips(Vec::new())),
            Ok(Reply::Pods(vec![
                pod(Some("p-0"), vec![FINALIZER]),
                pod(None, vec![FINALIZER]),
                pod(Some("p-2"), vec![FINALIZER]),
            ])),
            Ok(Reply::Done),
        ],
    );
    assert_eq!(asked.len(), 5);
    assert!(asked[4].contains("p-0"));
    assert!(matches!(outcome, Some(Err(Error::MissingPodName))));
}

#[test]
fn missing_addresses_are_an_error() {
    let (_, outcome) = drive(OrphanCleanup::start("prod", None), vec![Ok(Reply::Addresses(None))]);
    assert!(matches!(outcome, Some(Err(Error::MissingAddresses))));
    let (_, outcome) = drive(
        OrphanCleanup::start("prod", None),
        vec![Ok(Reply::Addresses(Some(Vec::new()))), Ok(Reply::Addresses(None))],
    );
    assert!(matches!(outcome, Some(Err(Error::MissingAddresses))));
}

#[test]
fn tasks_stop_at_the_first_failure() {
    let tasks = || {
        release_tasks(
            &vec![address("a", Some("as-a"), None), address("b", None, None)],
            false,
        )
    };
    let (asked, outcome) = drive(
        TaskList::start(tasks(), None),
        vec![
            Ok(Reply::Disassociated(Ok(()))),
            Err(Error::AwsReleaseAddress { source: s("no") }),
        ],
    );
    assert_eq!(asked.len(), 2);
    assert!(matches!(outcome, Some(Err(Error::AwsReleaseAddress { .. }))));
    let (asked, outcome) = drive(
        TaskList::start(tasks(), Some(Error::MissingPodName)),
        vec![Ok(Reply::Disassociated(Ok(()))), Ok(Reply::Done), Ok(Reply::Done)],
    );
    assert_eq!(asked.len(), 3);
    assert!(matches!(outcome, Some(Err(Error::MissingPodName))));
    let (asked, outcome) = drive(TaskList::start(Vec::new(), None), Vec::new());
    assert!(asked.is_empty());
    assert!(matches!(outcome, Some(Ok(()))));
}

#[test]
fn an_association_that_must_exist_may_not_be_gone() {
    let gone =
        || ServiceError { code: Some(s("InvalidAssociationID.NotFound")), message: s("gone") };
    let (_, outcome) = drive(
        TaskList::start(
            vec![Task::Disassociate { association_id: s("as"), must_exist: true }],
            None,
        ),
        vec![Ok(Reply::Disassociated(Err(gone())))],
    );
    assert!(matches!(outcome, Some(Err(Error::AwsDisassociateAddress { .. }))));
    let (_, outcome) = drive(
        TaskList::start(
            vec![Task::Disassociate { association_id: s("as"), must_exist: false }],
            None,
        ),
        vec![Ok(Reply::Disassociated(Err(gone())))],
    );
    assert!(matches!(outcome, Some(Ok(()))));
}

#[test]
fn a_finalizer_is_removed_in_the_namespace_of_its_pod() {
    let in_namespace = |name: &str, namespace: Option<&str>| {
        let mut p = pod(Some(name), vec![FINALIZER]);
        p.namespace = namespace.map(s);
        p
    };
    let patched = |namespace: Option<&str>| {
        let (asked, outcome) = drive(
            OrphanCleanup::start("prod", namespace.map(s)),
            vec![
                Ok(Reply::Addresses(Some(Vec::new()))),
                Ok(Reply::Addresses(Some(Vec::new()))),
                Ok(Reply::Eips(Vec::new())),
                Ok(Reply::Pods(vec![
                    in_namespace("p-0", Some("apps")),
                    in_namespace("p-1", Some("team-a")),
                ])),
                Ok(Reply::Done),
                Ok(Reply::Done),
            ],
        );
        assert!(matches!(outcome, Some(Ok(()))));
        asked[4..].to_vec()
    };
    let patch = |name: &str, namespace: &str| Request::PatchPod {
        scope: ApiScope::Namespaced(s(namespace)),
        name: s(name),
        operations: vec![
            PatchOperation::Test { path: s("/metadata/finalizers/0"), value: s(FINALIZER) },
            PatchOperation::Remove { path: s("/metadata/finalizers/0") },
        ],
    };
    assert_eq!(patched(None), shown(vec![patch("p-0", "apps"), patch("p-1", "team-a")]));
    assert_eq!(patched(Some("apps")), shown(vec![patch("p-0", "apps"), patch("p-1", "apps")]));
}
