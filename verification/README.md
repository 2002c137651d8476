# Flashback

The decisions of an episodic-memory service, written in Verus and proved: what a
request is refused for, what is read next and when an answer is complete, how a
text is cut to its budget, what an operation makes of a state object, and what a
page of the admin interface shows.

## Layout

- `src/` is the library. Every function in it states what it returns; laws that
  span functions stand beside them as proof functions whose names begin with
  `law_`.
  - `text`, `bits`, `ids`, `time`, `json`: texts, numbers by their bits,
    identifiers, points in time and JSON documents.
  - `records`, `assemble`, `ingest`, `statements`: the raw records, the assembly
    of context from them, and taking them in.
  - `memory`, `state`, `state_routes`, `core_memory`, `context`, `summaries`:
    memories, state objects, pinned memories, layered prompts and summaries.
  - `settings`, `settings_api`, `config`: the provider and its settings.
  - `playground`, `stream`: one turn of the memory loop at a time, and the
    stream of a model's answer.
  - `handlers`, `views`, `dev_mode`, `assets`, `projection`: the admin interface.
- `tests/` runs the library on given values.
- `app/` is the program around it: HTTP, the database, the clock, and the layout
  of the map, which is floating point.

Where a step needs the database, a model or the network, the library gives the
action and takes the event that comes back; `app/` carries the action out.

What the library relies on without proof are the few functions marked
`#[verifier::external_body]` and the one `assume_specification`: each names the
function it calls and says what is claimed of it.
