# greentic_operator_core

The decision logic of the Greentic operator, written in Verus and proved against its
contracts: the bundle wizard (questions, deterministic plans, the work a plan asks for),
dev-mode settings and binary resolution, project listings and resolved manifests, the
provider registry's catalog resolution, secret naming, demo inputs, history, cards and HTTP
ingress routing, and the onboarding wizard's request handling.

Layout:

- `src/` is the verified library. Each module states its model with spec functions and
  views; public proof functions named `law_*` state properties that span several calls.
- `tests/` runs the library on concrete values.
- `app/` is the command-line program around the library: argument parsing, the file system
  and settings on disk, for the `dev`, `project`, `wizard`, `registry` and `demo` (input, card and
  doctor) commands. The HTTP ingress server and the onboarding endpoints, which run provider
  flows through a runner host, are not part of it; the library holds their decisions as step
  functions (`ingress_invocation`/`ingress_response`, `submit_step`) for such a host to drive.
