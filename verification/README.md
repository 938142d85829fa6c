# cloudmapper

cloudmapper maps a cloud account (AWS) or a Kubernetes cluster into an
agent-readable bundle: normalized resources with stable uids, explicit
relationships with evidence, scan errors, a graph, and drift findings against
an imported Terraform state.

The library under `src/` is written in Verus. Its functions carry `requires` /
`ensures` contracts over mathematical models (`Seq`, `Map`, `Set`, spec
functions and views), and Verus proves every function against its contract.

## Layout

- `src/json.rs` – a JSON value type with its model, lookups, merging and
  number text.
- `src/text.rs`, `src/order.rs`, `src/tags.rs` – string helpers, the text
  order, uid-sorted collections and stable sorting, and sorted tag maps.
- `src/model.rs` – the inventory document: resources, relationships, scan
  errors, uids and ARNs, the manifest and the graph.
- `src/aws_scan.rs` – the inventory builder and the records an AWS scan turns
  into resources and relationships.
- `src/k8s_scan.rs` – normalizing `kubectl` objects into resources,
  relationships and security findings.
- `src/terraform_state.rs` – Terraform state records, addresses and state ids.
- `src/compare.rs` – drift findings between a scan and a Terraform state.
- `src/cost.rs`, `src/ui.rs`, `src/cli.rs` – cost tag handling, graph overlays
  and command-line messages.
- `src/demo.rs`, `src/k8s_demo.rs` – the demo organisation and demo cluster.
- `tests/` – tests of the library on concrete values.
- `app/` – the command-line program: AWS and `kubectl` calls, SQLite, files,
  the HTTP UI server, and floating-point cost estimates.
