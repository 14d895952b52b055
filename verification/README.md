# transducer-agent

The agent of a distributed executor. It registers with an orchestrator, sends
heartbeats, takes on work items, runs a command-line tool for each of them, and
hands back the output, the files that were modified and some structured
artifacts.

## Layout

- `src/` is the library: every decision of the agent, with its contract, proved
  by Verus. It reads no file, opens no connection and runs no process.
- `app/` is the program around it: arguments, gRPC, the SPIRE agent's workload
  API, processes and the clock. It hands plain values to the library and does
  what the library hands back.
- `tests/` runs the library on concrete values, with the crates that it calls.

## What is proved

- A draining agent hands back every work item as rejected, until the
  orchestrator tells it to go on. At every moment of a run it has no more in
  hand than it may, and nothing once all is finished.
- A work item counts as completed exactly where its process ended with exit
  code zero; its artifacts are handed back either way.
- The lines of standard output and of standard error are captured until both
  are over, whichever of the two is over first. A stream that cannot be read
  counts as over.
- Files that a process says it has modified are listed once and in order;
  progress reports are at least ten seconds apart and stay below the end while
  the work goes on.
- Collected artifacts are well-formed JSON, and can be told from the bytes in
  which they are handed on.
- Without authentication the agent starts only where that was asked for; SPIFFE
  goes before a token, and an empty token is none.

What is taken on trust stands in `src/outside.rs`, one function for each call
into another crate.

## Usage

```bash
export CLAUDE_PATH=/path/to/tool MODEL_ID=some-model
transducer --orchestrator-url http://localhost:4003 --max-concurrent 4
```

The path of the tool and the model to advertise have no defaults: they are given
in the environment, or by the options of the same names.

## Authentication

- SPIFFE: `SPIFFE_ENDPOINT_SOCKET` names the socket of the SPIRE agent.
- Token: `TRANSDUCER_AUTH_TOKEN` holds a bearer token.
- None: `--disable-spiffe`, or `TRANSDUCER_ALLOW_NO_AUTH=1`; for local
  development only.
