# hive-core

A room of language-model agents that discuss a prompt under a turn policy
(parallel, round robin, debate, moderated, consensus), with a verified core.

- `src/` is the library, written in Verus: rooms and agents and their
  validation, the speaking order and stances, the prompt each agent receives,
  the session state machine that drives a run, the parsing of the providers'
  streams, vote parsing, and the server's and terminal client's decisions.
  Each public function carries a contract that Verus proves.
- `app/` is the program around it: the HTTP and WebSocket server, the command
  line client, the SQLite store, the configuration file and the provider
  clients. It performs what the session asks for and hands the outcomes back.
- `tests/` runs the library on concrete inputs.
