# plato-smart-device-client

A client for calibre's smart device protocol, for the Plato document reader.

- `src/` is the library, verified with Verus: the wire format (`wire`, `decimal`, `json`), the
  answers to calibre's commands (`smart_device_client`), the session as a machine of steps
  (`session`), the search for the server (`discovery`), and what the program does around the
  session (`program`). What holds of all answers and of all sessions is proved in `answer_laws`
  and `session_laws`.
  `bindings` holds what is taken from other crates without proof.
- `app/` is the program: arguments, settings file, sockets, files, and the events that are
  exchanged with the reader.
- `tests/` runs the library on concrete values.
