# game_runtime

The rules of a game-asset studio runtime, verified with Verus: how agents'
replies are checked, how conversations move from turn to turn, how a
character passes its design gates, how model routes are chosen and paid for,
and what the runtime writes into a project's files and audit trails.

## Layout

- `src/` — the verified library.
  - Agent protocol: `domain` (the action data), `action` (validating an
    agent's action), `action_contract` (what an agent is told it may return),
    `contract_schema` (the JSON Schema of those actions), `agents` (bundled
    agent definitions).
  - Conversations: `conversation` (the context a turn carries and what a reply
    decides), `turns` (opening, handing on and closing turns), `turn_output`
    (what completing a turn with an agent's output comes to), `workflow` and
    `facts` (the character workflow and its next steps), `order` (ordering by
    time and id).
  - Characters and projects: `gates` (spec, render and views confirmations),
    `generations` (images registered from a visual designer's turn),
    `images` (the review lifecycle of generated images),
    `drafts` and `draft_log` (committing drafts, their lifecycle, and
    finalizing a project), `project`
    (paths and directory rules), `project_json` (the `project.json` document),
    `listing` (the ordered list of a project's characters),
    `character_files` (reading and writing a character's metadata file),
    `model3d` (resuming and reporting 3D model jobs), `media` (the focus
    workspace's images and the cutting of a views image).
  - Routing and execution: `routing` (route selection, failover and quota),
    `limits` (usage limits and breakers), `ai_usage` (reserving AI usage
    against stored limits), `orchestration`, `execution`,
    `ai_config` (provider configuration checks).
  - Records and audits: `store`, `records` (stored state names), `attempts`
    (task attempts: retries, turn bindings, completion and recovery after a
    restart), `events`
    (task event payloads), `audit` (turn and model audit records),
    `transport` (stream audit registry).
  - Helpers: `text`, `assoc`.
- `tests/` — tests of the library on concrete values.
- `app/` — plumbing the library cannot hold: files, `serde` conversions,
  agent reply parsing with `serde_json`, typed parsing of agent frontmatter
  with `serde_yaml`, audit files and the stream audit registry.

The laws of the library are the public proof functions named `law_*`.
