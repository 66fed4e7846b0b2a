# kfk

A command-line tool for Apache Kafka cluster management: brokers, topics,
producing and consuming records, consumer groups, and saved cluster profiles
(`~/.kfk/config.toml`), over plaintext, TLS and SASL connections.

## Layout

- `src/` is the library, verified with Verus. It holds the decisions of the
  commands: the saved configuration (a map of clusters kept in name order),
  how a cluster is resolved from the command line, the configuration and
  `KFK_BROKERS`, the connection, consumer
  and producer settings, what each reply from the cluster becomes (sorted
  listings, topic and group details, error messages), the retry rule for the
  group coordinator, the requests sent for topics and groups, when
  consumption stops, which records are produced and shown, and the text
  that the commands print.
  - `text.rs`, `number.rs`, `sorting.rs`: strings, decimal numbers and a
    stable sort, with their specifications.
  - `config/`: the configuration model, lookup and resolution.
  - `cli/`: the arguments as plain values, and table rendering.
  - `client/`: the data types, the plans for the client, and the handling of
    the cluster's replies.
  - `commands/`: one module per command, and `config_laws.rs`, the laws of
    the configuration commands.
- `app/` is the program around it: argument parsing, reading the
  environment, reading and writing the configuration file (TOML), the network
  calls, the consume and produce loops, the JSON rendering of consumed
  records (serde_json), and printing.
- `tests/` runs the library on concrete values.
