# agent_manager

A workflow engine: objects move between the states of a workflow through named
transitions; hooks fired before and after a transition may let it through,
freeze the object, abort the transition or redirect it.

- `src/` is the library, verified with Verus:
  - `config.rs`: the workflow definition, its validation (`WorkflowConfig::load`)
    and its lookups (hooks come sorted by priority, stably);
  - `engine.rs` and `run.rs`: the engine and a transition in progress as a
    state machine (`advance`, `deliver`), specified by `advance_model` and
    `deliver_model`;
  - `actions/`: loop detection, rate limiting and the composition of Telegram
    notices;
  - `laws.rs`: properties across calls (a dry run fires no external action,
    a transition ends redirected in its from-state or completed in its target
    state whatever its hooks answer, the loop detector keeps the tail of an
    object's moves, a rate window lets at most its limit through, ...);
  - `payload.rs`: the merge of a runtime payload into the payload of each
    hook a transition fires;
  - `json.rs`: the reads of a hook's JSON payload, through `serde_json`;
  - `paths.rs`: the file name of a directory and the joining of two paths,
    through `std::path`.
- `app/` is the command-line program: it reads the JSON files, keeps the
  registry of actions, fires hooks (HTTP, scripts), and writes the SQLite
  journal.
- `tests/` exercise the library on concrete workflows.
