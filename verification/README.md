# adjent

Adjent orchestrates coding agents with a human in the loop: projects hold
tasks, tasks hold numbered rounds, and each round keeps its `inputs`,
`outputs` and `logs` artifacts under `ADJENT_HOME/state`. A manager polls
the server for pending actions and runs an agent on each.

- `src/` is the library, verified with Verus: the layout of the local state
  (`storage`), Unix path joining and splitting (`paths`), round numbers
  (`numbers`), which project/task/round a directory designates (`context`),
  the HTTP handlers' decisions (`server`), the CLI's requests, listings and
  manager loop (`cli`), and the MCP tools' logic (`mcp`). Calls into chrono
  and uuid are in `outside`.
- `app/` is the executable: argument parsing, the HTTP and MCP server, and
  the file-system operations that the library hands back.
- `tests/` run the library on concrete values.
