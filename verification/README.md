# cowork_rs

A desktop AI chat companion: sessions and messages stored in SQLite, an
OpenAI-compatible agent that streams its replies and calls tools (a clock and
the tools of configured MCP servers), and the settings that drive it.

- `src/` is the verified library (Verus). It holds the logic: the SQL
  statements and filters of the record store, the provider and MCP settings
  and how they resolve, the agent's stream folding, tool-call merging and
  tool loop decisions, the chat backend's turn preparation and stream
  listener, the chat window's state machine, the transcript, and the small
  Markdown, emoji and icon parsers of the chat view.
- `app/` is the program around it: SQLite access, JSON record files, the
  environment, the OpenAI client, MCP connections, and a command loop that
  serves the frontend's commands as JSON lines on standard input and output.
- `tests/` exercises the library.
