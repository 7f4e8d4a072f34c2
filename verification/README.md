# fake-sms-server

Twilio-compatible fake SMS gateway for 1KM development. It receives what a server's Twilio client
sends, returns realistic SIDs, and shows everything in a web inbox, so no provider account is
needed. The inbox is bounded (1000 messages) and lives in memory: a restart wipes it. Never expose
it publicly: auth is accepted, never verified.

```text
POST /2010-04-01/Accounts/:sid/Messages.json  Twilio shape (form To/From/Body, Basic auth tolerated)
POST /send                                     custom bridge shape (JSON to/body/sender?)
GET  /api/messages                            inbox, newest first (JSON)
GET  /rows?q=&provider=                       inbox rows (HTML partial)
GET  /stats                                   counts (HTML partial)
POST /clear                                   empty the inbox
GET  /healthz                                 liveness
GET  /                                        web inbox UI (auto-refresh)
```

`HOST` and `PORT` set the address (`0.0.0.0:8080` if unset). The server reads `htmx.min.js`, which
the web inbox loads, from its working directory.

- `src/` is the library, verified with Verus: the inbox, its listing and filters, the HTML of the
  web inbox, the requests and replies.
- `app/` is the server around it: sockets, parsing of requests, JSON, logging.
- `tests/` runs the library.
