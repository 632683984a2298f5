# Explorer Tab Merger

A Windows 11 background program that folds newly opened File Explorer windows into an existing
window as tabs. It has no user interface, starts at login, and writes to its log only when
something goes wrong.

- `src/` is the library, verified with Verus. It makes every decision and no system call: each
  flow that alternates the two is a machine that names the next call and is told the reply.
- `app/` is the process around it: it makes the calls.
- `tests/` drives the library against a registry, a disk and a desktop in memory.

| Module | What it decides |
|---|---|
| `tab_merger` | what happens when a window is created or shown |
| `merge` | one merge, from the new window to the new tab |
| `protocol` | the calls and replies of these two |
| `win_util` | window classes, hiding and showing, the choice of a host |
| `cloak` | which windows are hidden, since when, and which to give up |
| `shell_windows` | the entries of the shell's list of windows |
| `parsing_path` | the path of a virtual folder |
| `shell_events` | which events count |
| `supervisor` | the message loop and the watchdog |
| `startup` | the life of the process |
| `single_instance` | one instance per session |
| `conflicts` | other tools that do the same |
| `autostart` | the registration to start at login |
| `log` | the error log and its rotation |
| `text` | UTF-16, bytes and numerals |

Each machine has a value type (`MergeView`, `LifeView`, ...) with `call` and `next`; the
executable functions are proved equal to them. Proof functions named `law_...` state what holds
of whole runs, whatever the system replies.
