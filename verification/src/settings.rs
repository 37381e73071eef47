//! What the programs take from their environment.
use crate::controller::eip::Context as EipContext;
use crate::controller::node::Context as NodeContext;
use crate::controller::pod::Context as PodContext;
use crate::controller::{Controller, ListParams};
use crate::error::Error;
use crate::json::{json_string_map, parse_string_map};
use crate::labels::MANAGE_EIP_LABEL;
use crate::legacy::ContextData;
use crate::operation::{scope_of, ApiScopeView};
use crate::string_map::{keys_distinct, pairs_map, StringMap};
use crate::telemetry::{
    are_headers, headers_of, is_first_refusal, named_endpoint, parsed_targets, read_destination,
    read_headers,
};
use tonic::transport::Endpoint;
use tracing_subscriber::filter::Targets;
use vstd::prelude::*;

verus! {

/// The value of a variable, or else its default.
pub open spec fn or_default(value: Option<Seq<char>>, default: Seq<char>) -> Seq<char> {
    match value {
        Some(value) => value,
        None => default,
    }
}

/// The value of a variable, or else its default.
fn value_or(value: Option<String>, default: &str) -> (r: String)
    ensures
        r@ == or_default(value.deep_view(), default@),
{
    match value {
        Some(value) => value,
        None => default.to_owned(),
    }
}

/// What the operator is told.
#[derive(Debug)]
pub struct OperatorSettings {
    /// The namespace that the operator works in. Without one it works in all namespaces.
    pub namespace: Option<String>,
    /// The cluster that addresses are tagged for.
    pub cluster_name: String,
    /// What every address is tagged with besides.
    pub default_tags: StringMap,
}

/// Takes up what the operator is told. The default tags are a JSON object, which is empty where
/// it is not given.
pub fn operator_settings(
    namespace: Option<String>,
    cluster_name: String,
    default_tags: Option<String>,
) -> (r: Result<OperatorSettings, Error>)
    ensures
        match json_string_map(or_default(default_tags.deep_view(), "{}"@)) {
            Ok(tags) => r matches Ok(settings) && settings.namespace == namespace
                && settings.cluster_name == cluster_name && settings.default_tags@ == tags,
            Err(words) => r matches Err(Error::SerdeJson { source }) && source@ == words,
        },
{
    match parse_string_map(value_or(default_tags, "{}").as_str()) {
        Ok(default_tags) => Ok(OperatorSettings { namespace, cluster_name, default_tags }),
        Err(e) => Err(e),
    }
}

/// The labels of the resources that ask to be managed.
fn managed() -> (r: ListParams)
    ensures
        r.labels.deep_view() == Some(MANAGE_EIP_LABEL@),
{
    ListParams { labels: Some(MANAGE_EIP_LABEL.to_owned()) }
}

impl OperatorSettings {
    /// The controller of the pods that ask to be managed.
    pub fn pod_controller(&self) -> (r: Controller<PodContext>)
        ensures
            r.watched.deep_view() == scope_of(self.namespace.deep_view()),
            r.is_namespaced,
            r.list_params.labels.deep_view() == Some(MANAGE_EIP_LABEL@),
    {
        match &self.namespace {
            Some(namespace) => Controller::namespaced(
                namespace.as_str(),
                managed(),
                PodContext::new(),
            ),
            None => Controller::namespaced_all(managed(), PodContext::new()),
        }
    }

    /// The controller of the nodes that ask to be managed.
    pub fn node_controller(&self) -> (r: Controller<NodeContext>)
        ensures
            r.watched.deep_view() == ApiScopeView::All,
            !r.is_namespaced,
            r.list_params.labels.deep_view() == Some(MANAGE_EIP_LABEL@),
            r.context.namespace == self.namespace,
    {
        Controller::cluster(managed(), NodeContext::new(self.namespace.clone()))
    }

    /// The controller of all `Eip`s.
    pub fn eip_controller(&self) -> (r: Controller<EipContext>)
        ensures
            r.watched.deep_view() == scope_of(self.namespace.deep_view()),
            r.is_namespaced,
            r.list_params.labels is None,
            r.context.cluster_name == self.cluster_name,
            r.context.default_tags@ == self.default_tags@,
    {
        let context = EipContext::new(self.cluster_name.clone(), self.default_tags.clone());
        let all = ListParams { labels: None };
        match &self.namespace {
            Some(namespace) => Controller::namespaced(namespace.as_str(), all, context),
            None => Controller::namespaced_all(all, context),
        }
    }
}

/// Takes up what the operator for clusters without `Eip` resources is told. It works in the
/// namespace `default` where none is given.
pub fn legacy_settings(
    namespace: Option<String>,
    cluster_name: String,
    default_tags: Option<String>,
) -> (r: Result<ContextData, Error>)
    ensures
        match json_string_map(or_default(default_tags.deep_view(), "{}"@)) {
            Ok(tags) => r matches Ok(data) && data.namespace@ == or_default(
                namespace.deep_view(),
                "default"@,
            ) && data.cluster_name == cluster_name && data.default_tags@ == tags,
            Err(words) => r matches Err(Error::SerdeJson { source }) && source@ == words,
        },
{
    match parse_string_map(value_or(default_tags, "{}").as_str()) {
        Ok(default_tags) => Ok(
            ContextData::new(value_or(namespace, "default"), cluster_name, default_tags),
        ),
        Err(e) => Err(e),
    }
}

/// What a program is told about its traces.
#[derive(Debug)]
pub struct TracingVariables {
    /// Where traces are sent. Without it they are only printed.
    pub endpoint: Option<String>,
    /// A JSON object: what goes into the headers of every request.
    pub headers: Option<String>,
    /// A JSON object: what goes into every trace.
    pub toplevel_fields: Option<String>,
    /// Which share of the traces is sent.
    pub sample_rate: Option<String>,
    /// Which traces are sent at all.
    pub level_targets: Option<String>,
}

/// How traces are sent.
#[derive(Debug)]
pub struct TracingSettings {
    pub endpoint: Endpoint,
    /// What goes into the headers of every request, with the keys in lower case.
    pub headers: Vec<(String, String)>,
    /// What goes into every trace, with the name of the service at the end.
    pub attributes: Vec<(String, String)>,
    pub sample_rate: String,
    pub level_targets: Targets,
}

/// Whether pairs list a map, each key once.
pub open spec fn lists(
    pairs: Seq<(Seq<char>, Seq<char>)>,
    map: Map<Seq<char>, Seq<char>>,
) -> bool {
    keys_distinct(pairs) && pairs_map(pairs) == map
}

/// Puts together how traces are sent, once everything has been read.
pub fn tracing_settings_from(
    level_targets: Targets,
    endpoint: Endpoint,
    headers: Vec<(String, String)>,
    toplevel_fields: StringMap,
    sample_rate: Option<String>,
    service_name: &str,
) -> (r: TracingSettings)
    ensures
        r.level_targets == level_targets,
        r.endpoint == endpoint,
        r.headers == headers,
        r.attributes.deep_view() == toplevel_fields.listed().push(
            ("service.name"@, service_name@),
        ),
        lists(r.attributes.deep_view().drop_last(), toplevel_fields@),
        r.sample_rate@ == or_default(sample_rate.deep_view(), "0.05"@),
{
    let mut attributes = toplevel_fields.to_pairs();
    let ghost listed = attributes.deep_view();
    attributes.push(("service.name".to_owned(), service_name.to_owned()));
    assert(attributes.deep_view() =~= listed.push(("service.name"@, service_name@)));
    assert(attributes.deep_view().drop_last() =~= listed);
    TracingSettings {
        endpoint,
        headers,
        attributes,
        sample_rate: value_or(sample_rate, "0.05"),
        level_targets,
    }
}

/// Whether traces go where they are told to, with these headers.
pub open spec fn is_told(
    settings: TracingSettings,
    level_targets: Targets,
    endpoint: Endpoint,
    headers: Seq<(Seq<char>, Seq<char>)>,
    fields: Map<Seq<char>, Seq<char>>,
    sample_rate: Seq<char>,
    service_name: Seq<char>,
) -> bool {
    &&& settings.level_targets == level_targets
    &&& settings.endpoint == endpoint
    &&& settings.headers.deep_view() == headers
    &&& settings.attributes.len() > 0
    &&& settings.attributes.deep_view().last() == ("service.name"@, service_name)
    &&& lists(settings.attributes.deep_view().drop_last(), fields)
    &&& settings.sample_rate@ == sample_rate
}

/// Takes up what a program is told about its traces: how they are sent, if they are sent at all.
/// The two JSON objects are read first, then which traces are sent, then where, and then the
/// headers, in the order in which the entries of the first JSON object come.
pub fn tracing_settings(variables: TracingVariables, service_name: &str) -> (r: Result<
    Option<TracingSettings>,
    Error,
>)
    ensures
        match variables.endpoint {
            None => r == Ok::<Option<TracingSettings>, Error>(None),
            Some(place) => match (
                json_string_map(or_default(variables.headers.deep_view(), "{}"@)),
                json_string_map(or_default(variables.toplevel_fields.deep_view(), "{}"@)),
            ) {
                (Ok(headers), Ok(fields)) => match (
                    parsed_targets(or_default(variables.level_targets.deep_view(), "DEBUG"@)),
                    named_endpoint(place@),
                ) {
                    (Ok(targets), Some(endpoint)) => exists|pairs: Seq<(Seq<char>, Seq<char>)>|
                        #[trigger] lists(pairs, headers) && match r {
                            Ok(Some(settings)) => are_headers(pairs) && is_told(
                                settings,
                                targets,
                                endpoint,
                                headers_of(pairs),
                                fields,
                                or_default(variables.sample_rate.deep_view(), "0.05"@),
                                service_name@,
                            ),
                            Ok(None) => false,
                            Err(e) => !are_headers(pairs) && is_first_refusal(pairs, e),
                        },
                    (Ok(_), None) => r matches Err(Error::TonicTransport { source }) && source@
                        == "invalid URI"@,
                    (Err(words), _) => r matches Err(Error::TracingSubscriberParse { source })
                        && source@ == words,
                },
                (Err(words), _) => r matches Err(Error::SerdeJson { source }) && source@ == words,
                (Ok(_), Err(words)) => r matches Err(Error::SerdeJson { source }) && source@
                    == words,
            },
        },
{
    let place = match variables.endpoint {
        Some(place) => place,
        None => {
            return Ok(None);
        },
    };
    let headers = match parse_string_map(value_or(variables.headers, "{}").as_str()) {
        Ok(headers) => headers,
        Err(e) => {
            return Err(e);
        },
    };
    let fields = match parse_string_map(value_or(variables.toplevel_fields, "{}").as_str()) {
        Ok(fields) => fields,
        Err(e) => {
            return Err(e);
        },
    };
    let level_targets = value_or(variables.level_targets, "DEBUG");
    let (targets, endpoint) = match read_destination(level_targets.as_str(), place) {
        Ok(destination) => destination,
        Err(e) => {
            return Err(e);
        },
    };
    let listed_headers = headers.pairs();
    assert(lists(listed_headers.deep_view(), headers@));
    let headers = match read_headers(listed_headers) {
        Ok(headers) => headers,
        Err(e) => {
            return Err(e);
        },
    };
    let settings = tracing_settings_from(
        targets,
        endpoint,
        headers,
        fields,
        variables.sample_rate,
        service_name,
    );
    Ok(Some(settings))
}

} // verus!
