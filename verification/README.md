# argentor_agent

Building blocks of an LLM agent, written in Verus: every function in `src/`
carries a contract over mathematical models (sequences, maps, integers) and
is proved against it.

## Layout

- `src/` — the verified library:
  - `circuit_breaker` — per-provider breakers (closed, open, half-open with a
    single probe) and their registry;
  - `agent_loop`, `gemini`, `gemini_stream` — the agentic loop as a state
    machine, and reading Gemini replies, whole or streamed;
  - `diff_*` — line diffs from a longest common subsequence, hunks,
    unified text, parsing, validation and application, with their laws
    (minimality, apply-after-generate, format-then-parse);
  - `test_oracle` — reading test-runner output and driving TDD cycles;
  - `code_planner`, `plan_*` — change plans and their dependency graphs;
  - `prompt_*`, `template_render` — versioned prompt templates;
  - `structured_output`, `react`, `evaluation`, `identity`,
    `adaptive_memory`, `cost_complexity`, `debug_recorder`, `voice`,
    `vision_backends` — the remaining agent services.
- `tests/` — tests of the library on concrete values.
- `app/` — what stays outside the proofs: floating-point scoring and cost
  models, and types that need outside derives.

Calls into outside crates (`regex`, `serde_json`, `chrono`) go through small
trusted wrappers whose contracts name or state what those crates return.
