# nearby_management

Decisions behind nearby management of a running EasyTier instance on HarmonyOS:
which packets enter the transport, which sessions may be open, which calls reach the
instance, and which configuration files may be touched. The functions under `src/` are
verified with Verus, except for the bodies of a few wrappers that call other crates or
the standard library.

- `paths`, `text`, `instance_id`, `json`, `queue`: paths, text, UUIDs, JSON values and
  bounded queues. Those wrappers, and the other items that Verus believes without proof,
  stand here and in `listener`, each with a comment that says what it claims.
- `config_store`, `storage`, `overwrite`: the managed configuration files, and the one
  running instance that may be overwritten.
- `keys`, `packets`, `session`, `sessions`, `bridge`: sessions and their packets.
- `service`, `call`: management calls and their JSON replies.
- `host_server`, `listener`: the management server and its Unix socket.

`app/` does the input and output: it performs what the library decides, through
EasyTier's own crates and the HarmonyOS host.
