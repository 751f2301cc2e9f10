# miyori

The logic of a desktop whose applications run in virtual machines ("spaces"), verified with Verus.

- `src/daemon/`: the host daemon. Its store of spaces, the command lines of the machines, the
  network rules and the registry, what is observed of a running machine, and each operation
  (start, create, reset, update, stop, destroy, build) as a job: it names the next action, is told
  what came of it, and ends with an answer.
- `src/guest.rs`, `src/agent.rs`: what the agent in a machine answers, and what the host makes of
  the answer.
- `src/broker.rs`: the broker of windows: which proxy serves which guest, and for how long.
- `src/label/`: the strip that says whose window has the focus, down to its pixels.
- `src/manager/`: the manager. Replies as rows of text, the rules of its buttons and forms, and
  its window as a state that every event changes.
- `src/text.rs`, `json.rs`, `toml.rs`, `bytes.rs`, `order.rs`, `paths.rs`, `names.rs`, `ids.rs`,
  `accounts.rs`: what the others are built from.

Public proof functions state what holds of the whole: that a refused start takes back the tap it
raised and the passphrase it wrote, that a title cannot forge a space, that two spaces never share
a name on the host.

`app/` holds the programs: sockets, files, processes, Wayland and GTK. It performs the actions
and shows the state; what is decided is decided in `src/`.

What is believed without proof stands in four places: reading JSON (`src/json.rs`), reading and
writing TOML (`src/toml.rs`), three functions of the standard library on text (`src/bytes.rs`) and
one on strings (`src/text.rs`).
