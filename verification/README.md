# pso2server

The verified core of a Phantasy Star Online 2 private server: the data
structures, rules and decisions of the ship server, the master ship, the patch
server and the data tools, with their behaviour stated as Verus contracts and
proved.

## Layout

- `src/` — the library, verified by Verus.
  - `flags`, `name_id`, `user_state`, `stats`, `quest_type` — account and
    character flags, name hashing, connection states, race stat modifiers,
    quest categories.
  - `session` — which handler a packet goes to in each connection state, the
    periodic connection check, login steps, block list and balance, and symbol
    art slots.
  - `chat`, `command`, `chat_command` — chat routing, flag ranges, splitting
    command lines, finding commands and building their help text; the ship's
    command table, reading a command with its arguments, and the concert tags.
  - `quests`, `party`, `inventory`, `battle`, `zone` — quest lists, parties and
    invitations, inventories and storages, damage and experience, minimaps,
    enemy spawns, interactions and the players of a map.
  - `ice` — the ICE archive writer, with its CRC-32 checksums.
  - `master`, `ship_conn`, `settings` — the master ship's registry, address
    choice, key blobs and links to ships; the framed and encrypted ship
    connection; server settings and startup planning.
  - `patch` — request path cleaning, patch lists and the management file.
  - `capture` — collecting quest and map data from a packet capture.
  - `text` — decimal numbers and string helpers.
- `tests/` — tests of the library.
- `app/` — the command-line tools around the library: settings files, locks,
  damage rolls, packet conversions and the patch server's files.
