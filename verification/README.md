# Blackholes

The state and the rules of a desktop workspace for coding agents: projects, tasks
with worktrees, terminals in docks, a file explorer with an editor, differences and
history, a palette, accounts and dialogs.

`src/` is a verified library. A transition is a method of `BlackholesApp` that
changes plain state and queues effects, which say what the host is to do. The host
performs them in order and reports back through the `finish_*` methods. Each
transition is described by a relation between the states before and after, and the
laws that hold across transitions are public proof functions whose names begin
with `law_`.

`app/` is the desktop side: the messages of the pages in JSON, the sockets, the
watchers on disk, the dialogs and what else the window draws, and the driver that
performs the effects against the services and the window. `tests/` runs the
library on concrete values.
