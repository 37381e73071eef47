use eip_operator::kube_ext::Pod;
use eip_operator::labels::{
    add_dns_target_annotation, add_gateway_status_label, pod_eni_annotation, refresh_labels,
    refresh_labels_for, remove_gateway_status_label, should_autocreate_eip,
};
use eip_operator::string_map::StringMap;

fn pod(labels: Option<Vec<(&str, &str)>>, annotations: Option<Vec<(&str, &str)>>) -> Pod {
    let map = |pairs: Vec<(&str, &str)>| {
        StringMap::from_pairs(
            pairs.into_iter().map(|(k, v)| (k.to_owned(), v.to_owned())).collect(),
        )
    };
    Pod {
        name: Some("web-0".to_owned()),
        namespace: Some("apps".to_owned()),
        uid: None,
        labels: labels.map(map),
        annotations: annotations.map(map),
        finalizers: Vec::new(),
        spec: None,
        status: None,
    }
}

#[test]
fn the_autocreate_label_is_read_in_whatever_case() {
    let labelled = |value| pod(Some(vec![("eip.materialize.cloud/autocreate_eip", value)]), None);
    assert!(should_autocreate_eip(&labelled("true")));
    assert!(should_autocreate_eip(&labelled("True")));
    assert!(should_autocreate_eip(&labelled("TRUE")));
    assert!(!should_autocreate_eip(&labelled("false")));
    assert!(!should_autocreate_eip(&labelled("")));
    assert!(!should_autocreate_eip(&labelled("yes")));
    assert!(!should_autocreate_eip(&pod(None, None)));
    let managed = pod(Some(vec![("eip.materialize.cloud/manage", "true")]), None);
    assert!(!should_autocreate_eip(&managed));
}

#[test]
fn the_interface_annotation_is_found() {
    let annotated = pod(None, Some(vec![("vpc.amazonaws.com/pod-eni", "[]")]));
    assert_eq!(pod_eni_annotation(&annotated), Some(&"[]".to_owned()));
    assert_eq!(pod_eni_annotation(&pod(None, Some(Vec::new()))), None);
    assert_eq!(pod_eni_annotation(&pod(None, None)), None);
}

#[test]
fn the_address_is_published_by_annotations() {
    let patch = add_dns_target_annotation("3.4.5.6", "eipalloc-1");
    assert_eq!(patch.field_manager, "eip.materialize.cloud");
    assert_eq!(patch.kind, "Pod");
    assert_eq!(
        patch.annotations,
        vec![
            ("eip.materialize.cloud/allocation_id".to_owned(), "eipalloc-1".to_owned()),
            ("external-dns.alpha.kubernetes.io/target".to_owned(), "3.4.5.6".to_owned()),
        ]
    );
    assert!(patch.labels.is_empty());
}

#[test]
fn the_egress_label_is_set_in_lower_case() {
    let patch = add_gateway_status_label("EIPalloc-ÄB");
    assert_eq!(patch.field_manager, "eip.materialize.cloud");
    assert_eq!(patch.kind, "Node");
    assert!(patch.annotations.is_empty());
    assert_eq!(patch.labels.len(), 1);
    assert_eq!(patch.labels[0].1, Some("eipalloc-äb".to_owned()));
}

#[test]
fn the_egress_label_is_removed_by_a_label_without_value() {
    let set = add_gateway_status_label("true");
    let patch = remove_gateway_status_label();
    assert_eq!(patch.labels.len(), 1);
    assert_eq!(patch.labels[0].0, set.labels[0].0);
    assert_eq!(patch.labels[0].1, None);
}

#[test]
fn the_refresh_label_holds_a_number() {
    assert_eq!(
        refresh_labels_for(18446744073709551615),
        vec![(
            "eip.materialize.cloud/refresh".to_owned(),
            "18446744073709551615".to_owned()
        )]
    );
    let labels = refresh_labels();
    assert_eq!(labels.len(), 1);
    assert!(labels[0].1.parse::<u64>().is_ok());
    let others: Vec<String> = (0..8).map(|_| refresh_labels()[0].1.clone()).collect();
    assert!(others.iter().any(|v| *v != labels[0].1));
}
