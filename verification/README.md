# Synapse

An event processing engine: events come in over HTTP, wait in a Redis stream, and
are routed to effects such as log lines, webhooks and activity feed posts.

- `src/` is the library. Its code is verified with Verus: what each function does is
  stated in its contract and proved. JSON text, regular expressions, UUIDs, time and
  HTTP status texts come from outside crates, through a few functions whose contracts
  are trusted.
- `app/` is the program around it: HTTP, Redis, files, the environment and the async
  runtime.
- `tests/` runs the library.

## The program

```text
synapse [server]       the HTTP API
synapse worker         reads the event stream and dispatches the events
synapse list-server    the HTTP API in front of a plain list
synapse list-worker    reads the plain list
```

Settings come from the environment:

- `REDIS_URL`: connection string for Redis
- `SYNAPSE_API_KEY`: bearer token of the API (default `dev-key`)
- `PORT`: port of the API (default 3000)
- `SYNAPSE_WORKER_NAME`, `SYNAPSE_CONSUMER_GROUP`: names of the worker and its group
- `RUST_LOG`: logging level

```bash
curl http://localhost:3000/health
# {"redis":"connected","status":"ok"}

curl -X POST http://localhost:3000/api/v1/events \
  -H "Authorization: Bearer dev-key" \
  -H "Content-Type: application/json" \
  -d '{"source": "test", "eventType": "user.action", "payload": {"foo": "bar"}}'
```
