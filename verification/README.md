# clawbot_web

The core of a bot dashboard: a web server through which users bind a WeChat account,
read what comes in and send texts, a webhook server for a single account, and a chat in
the terminal. What these decide is verified with Verus; what talks to the network, the
SQLite file and the terminal is ordinary Rust around it.

## Layout

`src/` is the verified library.

| module | what it holds |
| --- | --- |
| `db` | the tables and the operations on them |
| `db_laws` | what holds of the tables across operations |
| `auth` | who may call what; registration, login, passwords |
| `captcha` | captcha codes, and the store of captchas that were handed out |
| `captcha_image`, `raster` | what the picture of a captcha shows; drawing on images |
| `delivery` | sending a text to a bound account, step by step; taking in what came |
| `serve` | the other handlers of the dashboard |
| `webhook` | the webhook server for a single account |
| `chat` | the chat in the terminal |
| `handler_laws` | what every handler keeps of the tables |
| `wechat` | messages as the chat service delivers them |
| `reply` | the answers of the dashboard |
| `text`, `keyed`, `model` | texts, tables by key, shared notions of the contracts |
| `outside` | the calls into other crates, whose contracts are taken on trust |

`raster` holds the calls into the `image` crate, which are taken on trust as well.

`app/` runs the library: `store` keeps the tables in SQLite, `serve`, `webhook` and `chat`
talk to their callers, `wire` gives values their JSON shapes, `picture` softens the dots of
a captcha. The client of the chat service is an implementation of `service::Platform`.

`tests/` runs the library on concrete values.
