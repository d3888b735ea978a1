# mysql_binlog

A decoder for MySQL and MariaDB binary log events, written in Verus: each decoding
function states in its contract what it reads from the bytes it is given, and Verus
proves the code against it.

- `src/` is the verified library: event headers and bodies (`event`, `event_enum`),
  table maps (`table_map`, `table_map_decode`), row images and column values
  (`rows_event`, `rows_spec`, `decode_helper`, `json_binary`), the event stream parser
  (`parser`), and the laws that tie them together (`laws`).
- `app/` holds what Verus does not see: printing events, reading binlog files and
  readers, run-time format strings, and the channel plumbing of a replication stream.
- `tests/` runs the library on recorded events.
