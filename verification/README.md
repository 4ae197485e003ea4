# elowen-api

The orchestrator of Elowen: threads in which an operator talks to an assistant,
jobs that devices run, approvals, notes, and the trust between the orchestrator
and its devices.

The rules of the service stand in `src/`, a library that is verified with Verus.
Around it, `app/` holds the program: the HTTP routes, the Postgres queries, the
NATS subjects and the calls to the notes service and to the assistant. What the
program reads it hands to the library as plain values, and what the library
decides it carries out.

## The library

- `text`, `text_lemmas`, `scan` - texts as sequences of characters: trimming,
  splitting, searching, folding case
- `json`, `time`, `ids`, `order`, `error` - JSON values, timestamps, identifiers,
  sorted lists, and the errors that clients see
- `models`, `device_models` - the records that the rules speak of
- `formatting`, `titles` - replies, excerpts, slugs and job titles
- `drafts`, `draft_payload`, `conversation` - execution drafts that grow out of a
  conversation, and what the assistant is told
- `notes`, `note_memory`, `promotion` - searches for notes, the merging of what
  they find, and notes made of jobs
- `devices`, `device_trust`, `dispatch` - what devices offer, how their trust
  changes, and which of them gets a job
- `crypto`, `signers`, `registration` - signed challenges and the proofs that
  devices answer them with
- `lifecycle`, `approvals`, `threads`, `ui_events` - what devices report, what
  operators decide, and what the web UI is told
- `auth`, `sessions`, `config` - accounts, sessions and settings
- `laws` - what holds of several of these modules together

## The program

`app/` needs Postgres, NATS and a directory `migrations/` with the schema. It is
configured by its environment:

- `ELOWEN_DATABASE_URL` or `DATABASE_URL`
- `ELOWEN_NATS_URL` or `NATS_URL`
- `ELOWEN_NOTES_URL`
- `OPENAI_API_KEY`, `ELOWEN_ASSISTANT_MODEL`, `ELOWEN_ASSISTANT_BASE_URL`
- `ELOWEN_UI_AUTH_CONFIG_PATH`, `ELOWEN_UI_PASSWORD`, `ELOWEN_UI_OPERATOR_LABEL`,
  `ELOWEN_UI_COOKIE_NAME`, `ELOWEN_UI_COOKIE_SECURE`, `ELOWEN_UI_SESSION_DAYS`
- `ELOWEN_ORCHESTRATOR_SIGNING_KEY`, `ELOWEN_ORCHESTRATOR_SIGNING_KEYS`,
  `ELOWEN_ORCHESTRATOR_SIGNING_KEY_FILE`, `ELOWEN_ORCHESTRATOR_SIGNING_KEY_FILES`
- `ELOWEN_REQUIRE_TRUSTED_EDGE_REGISTRATION`, `ELOWEN_REVOKED_EDGE_PUBLIC_KEYS`
- `ELOWEN_LOG_FORMAT`, `PORT`

A list is written as a JSON array or with commas.
