# hy2_multiport

The core of a native nftables port-forwarding manager for Linux, written and proved in
Verus. A root daemon, `port-forwardd`, reads one TOML configuration, resolves the host
names in it and puts its profiles in force with one atomic nftables batch; a command
line, `port-forward`, asks it for status, logs and reloads.

## Layout

- `src/` is the verified library. It performs no I/O: it takes what was read, looked up
  or reported, and returns what is to be written, run or told.
  - `config` holds the configuration model, its rules and the port projection.
  - `dns`, `profile` and `refresh` choose the addresses of host names and keep them
    fresh.
  - `commit`, `settings` and `runtime` order an all-or-nothing reload and keep the
    daemon's data.
  - `nft` writes the batch and looks at chains and interfaces.
  - `control`, `state`, `service`, `doctor`, `host` and `wizard` are the control
    protocol, the status, the service commands, the diagnosis and the first use.
  - `address`, `number`, `text` and `time` are the values that all of them work with.
  - `laws` states what holds across modules, each as a proof.
- `tests/` runs the library on concrete values.
- `app/` holds the two programs: sockets, files, commands, the system resolver, and the
  serialised forms of the library's types.

## What is trusted

Three calls are believed rather than proved, each beside its contract: `String::push`,
the `Debug` form of a text (`text::quote`), and the random number of `rand`
(`dns::random_up_to`).
