# loom

The core of an agent runtime: conversations with a language model, tools, sub-agents,
checkpoints and sessions, written in Verus.

- `src/` is the library. Every function in it is verified against its contract, but for the
  few that only call another crate or the standard library, whose contracts are believed
  (they are named below). Decisions that stand between two pieces of outside work (a call of
  the model, a tool, a store) are functions from state and event to state and action.
- `tests/` runs the library on given values.
- `app/` is the chat server around it: HTTP, the model, timers, tasks and storage.

The modules of the library:

| Module | What it is about |
|---|---|
| `agent_loop` | the rounds of a run, how it begins, and how it is taken up again |
| `context` | what is kept and what is summarised when a conversation grows long |
| `delegation` | sub-agents: what is asked, what comes back, and delivering it once |
| `tools` | which tools an agent has, guarding their calls, and their results |
| `chat` | turns of a conversation, the events that are sent, and the settings |
| `checkpoint`, `session`, `scope`, `stored` | what is stored, for whom, and in which form |
| `lifecycle`, `isolation`, `agent`, `result` | agents, their states and what they hand back |
| `adapters`, `capability`, `directory`, `orchestration` | reaching what agents can do |
| `api_retry`, `errors` | failures of the model and what follows them |
| `prompt`, `config` | the prompt and the limits of an agent |
| `json`, `text`, `ids`, `clock`, `llm`, `message`, `order`, `seqs` | the values all this is made of |

What the library asks of `serde_json`, `uuid`, `chrono` and the standard library stands in
`json/codec.rs`, `ids.rs`, `clock.rs`, `errors.rs` and `text.rs`, each call with the contract
that is believed of it.
