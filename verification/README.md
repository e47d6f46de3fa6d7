# acpbridge

A bridge between messaging platforms (Telegram, QQ, Lark, WeChat, Discord) and
agents that speak the Agent Client Protocol. Its logic is a library that Verus
verifies; the program around it does the input and output.

## Layout

- `src/`: the verified library.
  - `config`, `option_map`: the configuration and when it is valid.
  - `channel`: messages, and what each platform does with them (`telegram`, `qq`,
    `lark`, `wechat`, `discord`), texts that arrive in pieces (`buffers`), access
    tokens (`token`).
  - `ingress`, `egress`: the session that each chat talks to.
  - `orchestrator`, `message_bus`: the bots of each chat, where bots can reach
    each other.
  - `dialog`, `agent_session`, `bot`: the course of a conversation, as a function
    from events to steps.
  - `acp_client`: the state of an agent's session, its commands, and its output.
  - `mcp_server`: the requests of agents that look for other bots.
  - `clock`, `number`, `split`, `text`, `table`, `shared_map`: what the rest is
    built on.
- `app/`: the program: the configuration file, the platforms' connections, the
  agents' processes and the MCP server.
- `tests/`: tests of the library.

Moments are passed in as nanoseconds. The queues over which messages travel stand
in the library as numbers, called lines; `app/` keeps the queues themselves.

What the library takes on trust from other crates and from the standard library
is marked `external_body` or `assume_specification`, each with a comment that says
what is believed of it: in `text`, `shared_map`, `channel/lark`, `channel/qq`,
`channel/wechat` and `mcp_server`.
