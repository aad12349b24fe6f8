# opencan

OpenCAN describes CAN networks: signals laid out in the data bits of messages,
messages sent and received by nodes, and message templates. This crate holds the
description types with their construction rules, the composition of a network from
the YAML definition format, the import of DBC files, and the C code generated for
one node, each with a contract that Verus proves.

- `src/` is the library. `signal`, `message`, `template`, `node` and `network`
  build validated descriptions; `ymlfmt` and `compose` turn a definition into a
  network; `dbc` imports DBC files; `ctext`, `csignal`, `cmessage`, `status`,
  `c_rx`, `c_tx` and `codegen` generate C; `cantools` writes a network as Python for
  cantools; `decode` reads received frames; `analyze` counts bus load; `proto` is a
  small flat network description.
- `app/` is the command line program: it reads files, parses YAML with serde,
  prints and writes the generated files.
- `tests/` runs the library on concrete values.
