# catdesk_delegated

Delegated and autonomous coding runs, as a verified library.

A supervisor hands a contract to a worker: what to do, where, with which commands, and
within which budgets. The library holds the rules that such a run is kept to. It decides
what a worker may call, when a claim of completion counts, when an advisor may be asked
and what it may be shown, and what is left of a run after a restart.

## Layout

- `src/` is the library. Each module states what it does in contracts and proves them.
  - `contracts`, `events`, `journal`, `coordinator`, `context`: a delegated run, its log
    and its budgets.
  - `advisor`, `integrated`, `integrated_tools`, `integrated_advice`, `patching`: the
    worker's turns, its tools and its advisor.
  - `autonomous_contract`, `autonomy_state`, `autonomous_controller`,
    `autonomy_supervisor`, `autonomy_verifier`, `autonomy_runtime`: sessions that run
    under a lease.
  - `codex_cli`, `provider`, `job_manager`: providers of turns, and jobs.
  - `text`, `json`, `hash`, `redaction`, `sorting`: what the others build on.
- `tests/` runs the library.
- `app/` holds the files, processes and tools around it: records as JSON files, the
  advisor and the coding command line as processes, jobs with their logs.

The library keeps its journal and its sessions in memory. The application reads them in
at the start and writes down what each step has changed.
