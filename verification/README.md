# singularity_world

The logic of the Singularity World game server, written in Verus: every
function in `src/` carries a contract and is proved against it.

- `src/npc/` — NPC behaviour: topics and their weighting, narrative lines,
  where an intent leads (the room-graph questions and their answers),
  travel along schedules, hiring into venues, the square- and hex-grid turn
  logic, arrival effects, reactions and small talk.
- `src/npcnpc/` — talk between NPCs: the course of an attempt as a step
  function (gates, counters, the recorded choice) and its topic choice, pair
  choice and scoring, conversation threads, standing between two NPCs, rumours and room events.
- `src/server/` — the decision behind each client and admin request: message
  routing, login and character checks, actions on entities and objects
  (look, talk, fight, borrow, trade), equipment, room views and narration,
  the room editor and the admin room API, the connection hub.
- `src/roomcheck.rs` — the checks made on room files.
- `src/text.rs`, `src/assoc.rs`, `src/json.rs`, `src/random.rs` — text
  operations with exact specifications, association lists, and the few calls
  into `serde_json` and `rand`, each behind a contract.
- `app/` — what the library leaves out: reading the data files, the JSON
  forms of messages and requests, walking a directory of room files, the
  drivers that answer the library's steps from the world, and the
  floating-point intent decision.
- `tests/` — tests of the library on concrete values.

Laws that span several functions are public proof functions named `law_*`.
