# btrfs-lsattr

Lists file attributes as `lsattr` does, with a btrfs tree search behind the
`--has` filter. The decisions of the program are a Verus library; the system
calls are ordinary Rust around it.

## Layout

`src/` is the library. Nothing in it opens a file or writes to a terminal.

| Module       | What it holds                                                    |
|--------------|------------------------------------------------------------------|
| `flags`      | attribute bits, letters and names, and what btrfs keeps of them  |
| `format`     | output rows                                                      |
| `paths`      | joining and trimming paths, which are byte strings               |
| `bytes`      | integers in kernel structures                                    |
| `btrfs`      | requests and replies of the two btrfs ioctls                     |
| `replies`    | laws: replies are read back as they were written                 |
| `ioctl`      | request numbers of the attribute ioctls                          |
| `errors`     | failures, as the logic tells them apart                          |
| `report`     | diagnostic lines                                                 |
| `list`       | one file: open, read, filter, print                              |
| `walk`       | one argument, by directory walk                                  |
| `walk_laws`  | laws: what a walk shows of a directory tree                      |
| `sweep`      | one subvolume, by tree search                                    |
| `sweep_laws` | laws: a sweep streams every inode once and prints the selected   |
| `scan`       | a subvolume and those nested in it                               |
| `scan_laws`  | laws: what a scan does in a tree of subvolumes                   |
| `parity`     | law: tree search and walk print the same rows                    |
| `cli`        | the command line and its filter                                  |
| `session`    | the arguments in turn, and the exit status                       |

`list`, `walk`, `sweep`, `scan` and `session` are state machines. A phase names
what is to be done next, one method for each kind of answer moves the machine
on, and one spec function, `step`, says where to. The loops that do the work and
hand back the answers are in `app/drive.rs` and `app/main.rs`; `app/sys.rs`
wraps the system calls.

`tests/` drives the machines against file systems in memory.

## What is taken on trust

- `String::from_utf8_lossy` and `String::push` of std.
- The values of `libc::ELOOP` and `libc::EOPNOTSUPP` on Linux.
- `vstd`'s own specifications of std.
