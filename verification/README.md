# rivora

Deterministic, explainable engineering reasoning over Engineering Objects:
Investigations, Observations, Memory, Knowledge, Evaluations, Verification
Receipts, Recommendations, Learning Outcomes, hypotheses, relationships
between Investigations, improvement proposals, measured outcomes, assisted
workflows and execution attempts.

The reasoning core is written in Verus and verified: every public function
states in its contract what it returns, usually as an exact specification
over sequences, sets and text, and the laws that span several functions are
stated and proved as proof functions.

## Layout

- `src/` — the verified library.
  - `text`, `ids`, `json`, `keymap`, `vocab`, `model`, `error`:
    text handling, identifiers, JSON payloads and their compact text,
    ordered maps, vocabulary, the Engineering Object model.
  - `pipeline`: Knowledge derivation, Evaluation, Verification and
    Recommendation; `lifecycle`: the Investigation lifecycle; `ingest`:
    admitting Observations (payload bound, idempotent replay).
  - `graph`, `relationships`, `similarity`, `search`, `query`, `prior`:
    shared keys between Investigations, derived relationships, similarity
    ranking, structured and free-text search, recall of prior outcomes;
    `refresh`: recomputing an Investigation's derived relationships;
    `linking`: explicit links made and removed by people.
  - `context`, `patterns`, `trend`, `recall`: patterns across
    Investigations, historical trends, Recalled Context and its influence.
  - `hypotheses`, `suggestions`, `readiness`, `forecast`, `guidance`,
    `priority`, `report`: engineering assistance.
  - `proposal*`, `outcome`, `assess`, `evaluate`, `evaluation`, `measured`:
    improvement proposals (`proposal_gen` generates the two alternatives)
    and measured learning outcomes; `learning`: which outcomes inform
    Learning Patterns.
  - `workflow`, `execution`, `execution_gate`, `execution_run`,
    `execution_verify`: assisted workflows, controlled execution, the gates
    every external mutation passes (exact-revision approval, central policy,
    duplicate suppression), what blocks a live attempt before it runs,
    running a live attempt's actions through a capability, and
    independently verifying an executed attempt.
- `app/` — the runtime around the library: local JSON storage, the wall
  clock, the floating-point embedding baseline, the loop that invokes
  capability adapters for a decided execution, and the operations that load
  stored objects, call the library and persist what it derives.
- `tests/` — tests of the library on concrete values.

Scores and confidences are fixed-point integers in thousandths; times are
milliseconds since the Unix epoch.
