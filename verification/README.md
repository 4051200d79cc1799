# playground-common

Verified core of a locking scheme for a toolchain installation that many
cooperating processes use at once: a locker service hands out a system-wide
reader/writer lock per client identity, and front-end programs ask it for the
lock before touching the installation or running a tool.

- `src/` is the library, verified with Verus: the request framing
  (`protocol`), the locker's bookkeeping and its reader/writer policy
  (`locker`, with first-come-first-served waiting and backed by the concurrent map of `client_table`), the expiration
  timer's decisions (`timer`), the front ends' decisions (`nustup`, `nargo`),
  command-line splitting (`command`), the loopback addresses (`net`) and the
  translation of `flock(2)` operations into `fcntl(2)` record locks (`flock`).
- `app/` is one executable that acts as `locker`, `nustup`, `nargo` or
  `nalyzer` according to the name it is launched under; it does the sockets,
  processes, waiting and system calls, and asks the library for every decision.
- `tests/` runs the library on concrete values.
