# lab_dashboard

The verified core of the TXST Lab Dashboard, a desktop dashboard for lab
machines, self-hosted CI runners, queued jobs and Tailscale devices.

`src/` is the library, each function with its proved contract:

- `text` — character-level string operations (case, white space,
  replacement, ordering, decimal numbers) with their meaning as sequences.
- `json` — `JsonValue`, the JSON documents the dashboard reads, and the
  lookups it makes in them.
- `model` — the configuration and what the dashboard shows, with views.
- `jobs` — reading GitHub and Forgejo jobs and GitHub runners, splitting
  running from queued jobs, linking runners to the jobs they run.
- `forges` — the requests made to the forges, the addresses asked, the
  answers read, and how each answer is recorded.
- `tailscale` — the device list from `tailscale status --json`, sorted
  online first and then by name, and the health of the Tailscale source.
- `actions`, `terminal` — which devices allow SSH and restart, the commands
  they run, and the terminal that shows a session.
- `config` — where the configuration file is looked for.
- `dashboard` — one refresh put together.

`app/` is the Tauri application around it: environment, files, HTTP,
processes, and the serde copies of the library's types.
