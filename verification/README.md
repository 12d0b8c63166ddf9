# redirector

A TCP port redirector driven by one-line text requests
(`start <name> <port>:<target>`, `stop <name>`, `slow <name> <ms>`,
`resume <name>`), sent to an engine listening on `127.0.0.1:9900`.

- `src/` is the verified library: request parsing (`input_param`, `text`,
  `numbers`), redirections and their modes (`redirection`,
  `redirections_storage`), carrying out requests (`command_handler`), turning
  received bytes into requests (`command_receiver`), and the decisions of the
  relay and command-line loops (`relay`, `cli`).
- `app/` is the program around it: sockets, threads and `main`.
- `tests/` runs the library on concrete inputs.
