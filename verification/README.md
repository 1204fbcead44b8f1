# game-smith core

The verified core of game-smith, a manager for dedicated game servers installed
through SteamCMD. Verus proves the functions of `src/` against their contracts.
A few small functions only ask the outside world something whose answer is not
theirs to promise (whether a file exists, the current time, random bytes); their
contracts state what holds whatever the answer, and the logic that uses the
answer takes it as an argument and is stated exactly.

## Layout

- `src/` — the library, one module per concern:
  - `text` — string operations with mathematical specifications (trimming,
    splitting, parsing integers, decimal rendering, searching).
  - `status`, `game_servers`, `command_runs` — records, their status columns and
    the updates applied to them; slugs, install directories, boot-script sanitizing.
  - `installer`, `linux`, `windows`, `process` — SteamCMD scripts, launch plans,
    and the order in which a server's processes are signalled.
  - `steamcmd`, `steamcmd_linux` — SteamCMD paths, outcomes and errors;
    distribution detection, `ldd` and `ldconfig` output, the glibc workaround.
  - `encryption`, `credentials` — XChaCha20-Poly1305 encryption of the stored
    Steam password, and reading it back.
  - `templates`, `forms` — template export and import, form validation.
  - `shutdown`, `log_stream`, `scheduler` — the shutdown tracker and sequence,
    the live command log, and job schedules.
  - `desktop`, `assets`, `dirs`, `errors`, `boot` — desktop configuration and
    tray, static files, data directories, error pages, boot-time decisions.
- `tests/` — tests on concrete values.
- `app/` — the command-line entry and everything that talks to the operating
  system: files, processes, signals, environment variables, the browser and the
  start-on-login entry.
