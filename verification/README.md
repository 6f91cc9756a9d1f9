# scalex_dash

A dashboard for several Kubernetes clusters, on the terminal or as JSON. The
library under `src/` holds everything that the dashboard decides, computes and
lays out, written in Verus: each function carries a contract that is proved.
The program under `app/` talks to the clusters, the file system and the terminal.

## The library

| Modules | What they hold |
| --- | --- |
| `app`, `tree`, `sidebar`, `outline`, `event`, `laws` | the dashboard's state, the sidebar tree, keys, and what every event keeps |
| `session`, `connections` | discovery news, fetches and their generations, merging of snapshots |
| `kube_client` | the ways to a cluster and the order in which they are tried |
| `objects`, `data`, `snapshot`, `age`, `quantity`, `metrics` | rows of the tables, made from cluster objects |
| `checks`, `degradation`, `headless` | the health checks, known degradations, output without a terminal |
| `json`, `describe`, `dynamic_resource`, `resource_registry` | resources of any kind: columns, descriptions, names |
| `command_mode`, `filter`, `keybinding_registry`, `help_overlay` | commands, search, keys and help |
| `container_selector`, `log_viewer`, `pod_exec`, `port_detect` | what is done with a pod |
| `infra`, `infra_view` | the virtual machines, and the nodes that they are |
| `display`, `text`, `scan`, `sort`, `list` | lines on the screen, text and lists |

Public proof functions whose names begin with `law_` state what holds of several
functions together.

Percentages, and amounts of memory that take floating-point numbers to show, are
computed in `app/usage.rs` and handed to the library as text.

## What is not proved

A few functions call `chrono`, `ratatui`, `serde_json` or the standard library through wrappers
marked `#[verifier::external_body]`, or through `assume_specification`. The comment
above each says what is believed of the call.
