# eip-operator

Manages external connections to Kubernetes pods and nodes by AWS Elastic IPs (EIPs). The logic is
a library that is verified with [Verus](https://github.com/verus-lang/verus); the programs around
it do the talking to Kubernetes, to EC2 and to the kernel.

The operator

* registers the `Eip` resource with the cluster,
* allocates an address for every `Eip`, tagged with the uid of the `Eip`
  (`eip.materialize.cloud/eip_uid`), and gives it back once the `Eip` is deleted,
* associates the address with the network interface of the pod or node that the `Eip` is meant for,
  and ends the association once that pod or node goes away,
* annotates the pod with `external-dns.alpha.kubernetes.io/target`, so that external-dns publishes
  the address, and
* at its start, releases the addresses of the cluster whose `Eip` is gone.

## Layout

| Where | What |
| --- | --- |
| `src/operation.rs` | operations: work that alternates requests with decisions |
| `src/controller/` | reconciling pods, nodes and `Eip`s |
| `src/orphans.rs`, `src/tasks.rs` | releasing orphaned addresses |
| `src/egress.rs`, `src/labels.rs` | labels and annotations |
| `src/aws.rs`, `src/eip.rs`, `src/kube_ext.rs`, `src/node.rs` | the data, and what is read from it |
| `src/agent.rs` | the rules that an agent on every node keeps installed |
| `src/legacy.rs` | the operator for clusters without `Eip` resources |
| `src/settings.rs`, `src/telemetry.rs` | what the programs take from their environment |
| `src/laws/` | what holds of the operations as a whole, whatever they are answered |
| `app/` | the programs |
| `tests/` | tests of the library |

An operation never waits. It says what it asks for (`request`), takes the answer (`resume`) and
hands back what it has become, until there is an outcome. So the order of requests, what each of
them holds, and what an operation ends in are functions of the answers, and the contracts state
them. Where the answer is one that the operation cannot go on from, `accepts` says so beforehand.

## Running

The first argument says which program runs: `eip-operator` (the default),
`cilium-eip-no-masquerade-agent` or `legacy-eip-operator`.

`CLUSTER_NAME` is required. `NAMESPACE` limits the operator to a namespace; without it the operator
works in all namespaces, and an `Eip` and its pod still have to be in the same one. `DEFAULT_TAGS`
is a JSON object of tags for every address. `AWS_ENDPOINT_URL` takes the place of the public
endpoints of AWS.

To keep an address beyond the lifetime of a pod, create an `Eip` and label the pod with
`eip.materialize.cloud/manage=true`:

```yaml
apiVersion: materialize.cloud/v2
kind: Eip
metadata:
  name: my-new-eip
spec:
  selector:
    pod:
      podName: my-pod
```

A pod that is also labelled `eip.materialize.cloud/autocreate_eip=true` gets an `Eip` of its own,
which goes away with it; do not create one by hand for such a pod. An `Eip` with
`selector: { node: { selector: { ... } } }` goes to a ready node that carries all of those labels.

## Traces

`OPENTELEMETRY_ENDPOINT` is where traces are sent; without it they are only printed.
`OPENTELEMETRY_HEADERS` and `OPENTELEMETRY_TOPLEVEL_FIELDS` are JSON objects for the request headers
and for every span. `OPENTELEMETRY_LEVEL_TARGETS` filters the spans (`DEBUG` by default), and
`OPENTELEMETRY_SAMPLE_RATE` is the share of them that is sent (0.05 by default).
