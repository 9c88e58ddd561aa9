# timez_core

The core of a desktop time tracker: a local timer that keeps per-task elapsed
time between syncs with a backend, pauses the running task when the user goes
idle, and signs in with Google through the system browser.

- `src/` — the library, verified with Verus:
  - `timer` — the timer state: tasks shown with their elapsed time, syncing a
    task list, and starting, stopping and resuming timers as steps that name the
    server call to make next;
  - `tasks` — completing the server's task list with its summary and status,
    and picking the task the tray starts;
  - `idle`, `activity` — the idle monitor's decisions and the active/idle counts;
  - `text`, `oauth` — URL encoding, query parameters, the OAuth URL, the callback
    and the page the browser is answered with;
  - `service` — the local service's token, command line and idle-event queue;
  - `protocol` — requests and replies between the shell and the service: which
    requests are taken in, the reply envelope, what a caller takes from it, and
    the wait for a service that is starting;
  - `clock` — instants as chrono holds them (nanoseconds since the epoch), read
    from the system clock without panicking;
  - `decimal`, `models` — number text and the shared types.
- `app/` — the service program around it: HTTP, sockets, D-Bus, threads, JSON,
  and the shell's side (`--toggle`, `--quit-request`, `--quit`, `--watch`).
- `tests/` — tests of the library on concrete values.
