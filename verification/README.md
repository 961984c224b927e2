# autopilot_core

The decisions of an autopilot that hands Asana tasks to sessions of a coding assistant, verified with
Verus: which task is taken and which goes back to the operator, what a session is told and how it is
judged, how the daemon goes round its projects, and what its bot and its command lines understand
and answer.

- `src/` is the library. Every function in it states what it returns; `outside.rs` holds all that is
  taken on trust from other crates and from the standard library.
- `app/` is the program around it: HTTP, files, processes and the clock. It is called as `autopilot`
  or as `asana`, and reads the name of the assistant from the environment variable
  `AUTOPILOT_ASSISTANT`.
- `tests/` runs the library on given values.

| module | what it decides |
| --- | --- |
| `settings` | roles of sections, messages, where the settings lie |
| `client` | requests to Asana, their repetition, where a task lies |
| `links`, `context` | the description of a task that a session gets |
| `selection` | the order of tasks, which one is taken, which ones go back |
| `runner` | the model, the start, the watch and the outcome of a session |
| `daemon` | the rounds over all projects, and the status in words |
| `registry` | projects, their order, and the configuration |
| `initproj` | the files of a new project |
| `claudecli`, `telegram` | the account, and the bot |
| `cli`, `asana` | the two command lines |
| `text`, `decimal`, `order`, `paths` | texts, numbers, sorting and paths |
