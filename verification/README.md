# arch_postinstall

A terminal assistant that sets up a fresh Arch Linux installation: it lets the
user pick a desktop environment, drivers, official and AUR packages and a few
system settings, shows the plan for review, and then installs it step by step
with pacman and yay, enabling the services the choice needs. Plans can be kept
as profiles and installed again from the command line.

The decisions are made by a library verified with Verus; a thin program around
it reads the terminal, the files and the network, runs the commands and draws
the screens.

## Layout

- `src/` — the verified library.
  - `catalog`, `model` — the curated packages, environments and drivers; the
    plan and the profile, with the services and kernel parameters a plan needs.
  - `tui` — the assistant as a state machine: each key press changes the state
    and may ask for outside work (a search, a profile, a picker's options, the
    pre-flight checks), whose answer is handed back.
  - `installer` — the plan compiled into tasks, and the installer as a state
    machine: each step says what to log and which command, file or probe it
    needs; the answer to it decides the next step and the recorded outcome.
  - `detect`, `estimate`, `preflight`, `hardware`, `options`, `update`,
    `repo_api`, `profile`, `validate`, `validate_profile`, `cli` — reading
    what the system reports, sizes and free space, the checks before
    installing, option lists, version comparison, search results, profile
    file names, validation of settings and profiles, the command line.
  - `text`, `order` — strings as character sequences, sorting and removing
    repeats.
- `tests/` — tests of the library.
- `app/` — the program: arguments, terminal screens (ratatui), commands,
  files, network requests, the log file, and the TOML form of profiles.
