# easy_deploy

The logic of a deployment console, verified with Verus: release artifacts in an object store,
deployment plans, the commands that carry them out, the logs and histories that are kept of them,
accounts, roles and sessions, and readings of the host.

## Layout

- `src/` is the library. Its public functions state what they return or change in `ensures`
  clauses over mathematical models of its data, and Verus proves that they do.
- `tests/` runs the library on concrete values.
- `app/` is ordinary Rust around the library: the command line, processes, files, HTTP, the
  database, and floating point arithmetic. It performs what the library decides and hands back
  what came of it.

## Modules

| Module | Subject |
| --- | --- |
| `artifact_storage` | configuration of an object store, keys, signed requests, answers |
| `auth` | passwords, tokens, login, sessions, roles and permissions, accounts |
| `catalog` | templates for Compose applications |
| `deploy` | commands on this host and over SSH, their output, their end |
| `deployment_console` | what is shown of deployments |
| `deployment_orchestrator` | the plan of a deployment |
| `deployment_retention` | bounded and redacted logs, cleanup of artifacts and histories |
| `deployment_runtime` | the execution of a unit on its nodes |
| `events`, `query` | the event log, and conditions with bound values |
| `health` | health checks and what they found |
| `host_metrics` | readings of the host, and what changed between two of them |
| `maintenance` | removal of demonstration data |
| `text`, `pieces`, `decimal`, `order`, `bytes`, `json`, `urls`, `digest`, `clock` | the basics |

Where the library calls another crate, or a function of the standard library without a
specification, the call stands in a small function marked `external_body` whose doc comment says
what is claimed of it.

## What is proved beyond single functions

Properties that span several functions stand as public proof functions under the heading "Laws" at
the end of their modules. Among them:

- a plan covers every unit once, stops come first, disabled units are never deployed, and neither
  the order of the units nor that of the states changes it;
- a log loses no byte unaccounted for, keeps its limits, and depends on the output alone, however
  it was cut into chunks;
- a redacted text holds no secret that cannot arise from what redaction itself writes, that is from
  a mask, from inside a sensitive key with its sign and blanks, or behind a masked value; secrets of
  letters, digits, hyphens and underscores that are not letters alone are of this kind;
- an environment file reads back as the variables that it was written from;
- traffic is switched only after the health check, and a failure ends an execution;
- granted permissions are closed under their dependencies;
- a session is found once saved and gone once deleted, and failed logins lock an account;
- what is removed lies inside the data directory.
