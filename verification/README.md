# FileBase

FileBase is a self-hosted upload gateway: clients upload files through signed
sessions or API keys, the gateway checks them against upload presets, optionally
processes images, and stores them on the local file system, FTP or SFTP; webhooks
announce what happened.

## Layout

- `src/` is the library, written in Verus. Each module states its behaviour in
  `requires` / `ensures` contracts over mathematical models, and the laws that
  span several functions are proved as public `proof fn`s (named `law_*`).
  - `config` — the service settings read from environment variables.
  - `http`, `rate_limit`, `session`, `access` — request handling: session tokens,
    request limits per client, ownership checks, probe bodies, cookies.
  - `setup`, `api_keys`, `storage`, `backends`, `presets` — administration: the
    first-run setup, API keys, storage connections and their backends.
  - `uploads`, `pipeline`, `intake`, `names`, `imaging`, `files` — the upload
    pipeline: multipart intake and its hash, name and MIME checks, image
    processing, the duplicate decision and placement of a file and its
    companions, saved names, listings.
  - `webhooks`, `jobs`, `worker` — events, the job queue's decisions and webhook
    delivery.
  - `crypto`, `password`, `digest`, `ids`, `json`, `text`, `error` — building blocks.
- `app/` is the program around the library: the HTTP server, the worker loop,
  database and Redis access, and the storage backends' network and disk I/O.
- `tests/` exercises the library on concrete values.
