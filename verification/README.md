# my_agent

The decision logic of a role-based coding agent, verified with Verus.

- `src/` — the verified library: the confirmation tiers of tool calls
  (`agent_loop`), the classification of shell commands (`tools`), roles,
  permissions and intent routing (`registry`), rule escalation (`memory`),
  the two-stage audit of finished work, skill matching (`skills`), prompt
  evolution and self-modification decisions (`evolution`), the prompt's
  command grammar (`repl`), and the character-level helpers they share
  (`text`, `unicode`, `json`).
- `app/` — the program around it: the interactive prompt, the model
  provider, the tools as the agent framework sees them, and the files.
- `tests/` — tests of the library on concrete values.
