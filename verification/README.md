# opencode-plugin

A Chorograph plugin that

1. starts `opencode serve` on a port of the server's own choice and learns the port from what the
   server prints,
2. runs `opencode attach` in a terminal for the user,
3. listens to the server's events and turns tool calls, file writes and finished turns into
   events for the host's activity log and canvas.

What the plugin decides is verified with Verus; what it asks of its host is performed elsewhere.

## Layout

`src/` is the verified library. No function in it touches the host: each takes what the host
reported, and returns what the host is to do.

| module | what it holds |
| --- | --- |
| `startup` | the steps of the start, from one event to the next action |
| `port` | reading the server's port from its output |
| `actions` | the host's actions, and what its reads come to |
| `sse` | cutting the byte stream into events and reading one |
| `events` | mapping an event to calls of the host |
| `plugin` | the state that is kept between calls |
| `host`, `ui` | the calls, the log lines, and the components that are shown |
| `json`, `document` | JSON values; their text, by `serde_json` |
| `armor` | base64, by `base64` |
| `text`, `number` | lines, characters and decimal numbers |
| `stream_laws`, `port_laws`, `start_laws`, `plugin_laws` | what holds of all inputs and across calls |

`tests/` runs the library on given values. `app/` holds the WASM entry points and performs the
calls.

## What is trusted

The contracts of the functions marked `external_body` in `armor`, `document` and `text`, and of
`str`'s `==`: each names the function that it calls and says what is claimed of it. Everything
else in `src/` is proved.
