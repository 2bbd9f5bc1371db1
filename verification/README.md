# Priosun

Priosun manages FreeBSD jails and bhyve virtual machines. The client `priosun` sends
requests over a Unix socket; the daemon `priosund` carries them out.

`src/` is a Verus library. It decides what is to be done, and its contracts say exactly
what that is; it touches nothing itself.

- `text`, `sort`, `snapshot`, `error`: texts, order, what is known of files, errors.
- `plan`: lists of actions with what is undone when one fails, and the runner that hands
  them out one by one.
- `wire`, `extent`, `request`, `protocol`, `delivery`, `output`: nvtree messages, command
  lines, frames, sessions, tables; and that what is sent is what arrives.
- `metadata`, `dependency`, `launch`: properties of resources, the dependency graph, and
  starting a resource after those that it depends on.
- `jail`, `bhyve`, `service`, `template`, `config`, `util`: jails, virtual machines,
  services, and what they need.
- `address`, `net`, `nameservice`, `network`: the managed network.
- `daemon`, `client`: what the two programs decide.

Public proof functions whose names begin with `law_` state what holds of the library as a
whole.

`app/` holds the programs: the command line, sockets, processes, files, jails and
interfaces of the kernel. A plan of the library is carried out there, action by action.

`tests/` runs the library on concrete values.
