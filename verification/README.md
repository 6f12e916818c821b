# kdev

The backend of KDev, a portable developer workbench. It runs from a USB
drive or an install folder on Windows, Linux and macOS. This crate decides
everything the workbench does, and proves those decisions with Verus:
which data root is used, which names and paths a workspace accepts, how
tools are found and run, how Git and the Doctor report, how recovery
snapshots are named, pruned, listed and read back, how the master-password
lock behaves, and how storage is reported.

## Layout

- `src/` is the verified library. Every function there has a `requires` /
  `ensures` contract that Verus proves.
  - `paths`: path text read the way `std::path` reads it on each platform
    (Unix separators; Windows separators, drive, UNC, device and verbatim
    prefixes).
  - `workspace`: the data root and the workspace paths. `security`: the
    lock and the master password. `recovery`: crash-recovery snapshots.
  - `runtime`, `git`, `project_tools`, `debugger`, `extensions`,
    `storage`, `host`: the workbench's commands.
  - `text`, `numbers`, `order`, `json`, `process`: the shared pieces.
- `app/` is the thin shell around the library: file and process I/O, the
  environment, and serde copies of the library's types.
- `tests/` holds tests on concrete values.

Commands that alternate I/O and decisions take the I/O as closures
(resolving a tool, running a command, probing a file). Their contracts then
say exactly what is asked of the outside world, and what follows from each
answer.

Calls into `argon2`, `rand_core` and `serde_json` go through small trusted
wrappers. Each states what that crate's source shows about the call.
