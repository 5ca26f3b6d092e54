# bffh

The decision-making core of a FabAccess access-control server, written in
Verus and proved against its contracts.

Layout of `src/`:

- `text` – splitting strings at a separator.
- `permission` – permission paths, their specificity order, permission rules
  (`Base`, `Children`, `Subtree`) and how they are read and written.
- `role`, `user` – roles with parents, the role database and the permission
  check through a user's roles and their ancestors.
- `machine` – machine states, the rules by which users take, return and
  reset machines, the states queued for storage, and what the API offers a
  user of a machine.
- `proc_state`, `atomic_state` – the state word of a lightweight process
  (flags and reference count) and every transition the runtime makes on it.
- `registry` – the registry of value implementations by type identifier.
- `fabfire` – the FabFire card authentication exchange with a DESFire card.
- `auth` – the states of an API authentication exchange and its answers.
- `config` – listen addresses as the configuration writes them.
- `password` – Argon2 password hashes and the password database that keeps
  one for each user id.
- `process`, `shelly`, `modules` – the command line of the process actor,
  the Shelly actor with the topic and message it publishes, and the module
  names.

`app/` holds the command-line program around the library: reading files,
JSON and TOML, sockets, processes and the retry loops on the shared process
state word. `tests/` exercises the library on concrete values.
