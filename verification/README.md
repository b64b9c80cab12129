# AgentDispatch

A service that runs LLM agents: providers, models and agents are configured over an HTTP
API, users chat with an agent in sessions whose answers stream as server-sent events, the
model may call tools in an agentic loop, and a Telegram bot can front an agent.

- `src/` is the verified library. It holds the service's logic with its contracts: the
  chat-completions protocol and its event stream, the agent loop, tool calls and their
  assembly from streamed fragments, the encryption of secrets at rest, the Telegram
  connector's polling, backoff, whitelist and update handling, validation, configuration and
  the API's error answers.
- `tests/` runs the library on concrete values.
- `app/` is the server around it: configuration from the environment, the database, HTTP
  with axum, the calls to model providers and to Telegram, and the tasks that drive the
  library's state machines.
