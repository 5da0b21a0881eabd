# angelica

祈芷's body: an agent that talks in a terminal, remembers, tires, and sleeps.

The library under `src/` holds the agent's logic with its contracts, proved
by Verus:

- `agent/` — the turn: grouping tool calls (`group`), deciding each call or
  batch against the permissions and the user's approval (`dispatch`,
  `process`), the step state (`turn`), the user's turn with its context
  block (`user_turn`), and the conversation (`history`).
- `permission`, `glob` — permission rules and their glob patterns.
- `memory`, `episode`, `fatigue` — episodes and their life, the notebook,
  the self-description and profile texts, the counting half of fatigue.
- `prompt`, `sleep/` — the waking and sleeping system prompts, the sleep
  tools, and consolidation.
- `skills/` — skill files: the front-matter grammar and the registry.
- `mcp`, `llm/` — MCP tool lists and results, streamed model replies.
- `tui/` — the terminal's state: transcript, input line, scrolling, the
  slash menu and the settings editor over the configuration tree.
- `config`, `data_git`, `session`, `debug` — configuration defaults, the data
  directory's git history, past sessions, the debug views.
- `text`, `json`, `clock`, `paths` — text operations and the calls into
  outside crates the logic makes.

`app/` is the program around it: files, processes, the model's client, the
terminal drawing, and the floating-point fatigue curve.
