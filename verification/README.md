# ironclaw

The decision logic of the IRONCLAW endpoint agent, verified with Verus: what
the agent collects, how it classifies and filters events, how it buffers and
ships them, and how it applies what HQ sends back (policies, role
assignments).

## Layout

- `src/` — the verified library.
  - `text.rs` — substring search, case folding, number parsing and decimal
    rendering over `Seq<char>`.
  - `event.rs` — the event and its payload (an ordered key/value list).
  - `risk.rs` — the local classifier: risk flags, score, hard-rule violations.
  - `policy.rs` — the policy document, its fingerprint check, invariant
    enforcement and change summary.
  - `config.rs` — the startup configuration built from raw environment values.
  - `identity.rs` — keypair, registration request and identity.
  - `glob.rs` — case-insensitive `*`/`?` matching for path filters.
  - `eventlog.rs` — the parser of Windows Event Log XML renderings.
  - `collector.rs` — what the Sysmon, Security and PowerShell collectors
    forward, and their read positions.
  - `simulator.rs` — synthetic events driven by the policy.
  - `buffer.rs` — the bounded in-memory queue and its disk-spool overflow.
  - `transport.rs` — batch framing and compression, HQ status handling.
  - `agent.rs` — detection filters, policy updates, role changes,
    registration retries and rate-limited shipping.
- `tests/` — tests of the library.
- `app/` — the agent program: environment, files, HTTP, Windows Event Log
  access, timers and tasks, all driven by the library's decisions.

Each module states its laws as public proof functions named `law_*`.
