# grok_providers

Choosing, connecting and reaching the providers of language models: xAI itself,
OpenRouter, and ChatGPT accounts and subscriptions.

- `src/` is the library. It decides and computes, and every function of it is
  verified with Verus against its contract. It does no input or output: files,
  the environment, the time and the answers of servers come in as arguments.
- `app/` is ordinary Rust around the library: sockets, HTTP, files, the browser
  and the clock.
- `tests/` runs the library from outside.

The modules of the library:

| Module | What it holds |
| --- | --- |
| `responses_websocket` | the persistent WebSocket of a sampler session: continuing exchanges, reading responses, failures |
| `providers` | connected providers: stored credentials, catalogs, tokens of a subscription |
| `auth` | logins: credentials of each provider, the ChatGPT login and its refresh |
| `session_config` | the options that a session offers, and requests to set them |
| `slash` | the commands `/connect`, `/provider`, `/fast` and the effort menu |
| `status_line` | when the status line is refreshed, and how failures are logged |
| `extensions` | the requests to connect and disconnect a provider |
| `records` | records in JSON text, read field by field; what is no field is not looked into |
| `json`, `headers`, `urls`, `encoding`, `ordered`, `catalog` | what outside crates compute, with what is relied on of it |

What is relied on of outside crates stands in functions marked
`external_body`, each with a comment that names the function it calls.
