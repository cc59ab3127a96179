# kaf9s

A terminal client for Kafka clusters, written in Verus.

`src/` is the verified library:

- `config`: contexts, clusters and users gathered from context files, the general
  settings, and the rdkafka client configuration of a context.
- `error`: the errors of the configuration and their messages.
- `kafka`: the declarations through which the library builds an rdkafka `ClientConfig`.
- `string_map`: the map from names to values that the configuration keeps.
- `text`: character-level tests on strings.
- `topic`: the topics listed in the metadata of a consumer group member, and message
  counts from partition watermarks.
- `tui`: the state of the terminal interface, its answers to events, and the layout of
  its screen.

`app/` holds the program around it: reading the configuration files, talking to the
cluster, and drawing with ratatui. `tests/` runs the library on concrete values.
