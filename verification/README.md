# ts3_query_api

A client for the query interface of TeamSpeak servers over SSH, with its logic
verified by Verus.

The library decides, and does no I/O:

- `parser` reads and writes the lines of the query protocol: escaping, rows of
  properties, lists of rows, commands.
- `event` and `definitions` turn notifications and status lines into values.
- `protocol::client` decides on host keys, logins and the steps of connecting, and
  turns responses into results.
- `protocol::ssh` makes a byte stream of an SSH session.
- `protocol::connection` puts lines together to responses.
- `protocol::writer` pairs commands with their responses.

What each function does stands in its contract. What holds of several functions
together is stated by the proof functions whose names start with `law_`.

`app` holds the asynchronous client around the library: it does the I/O that the
library asks for, and hands back what came of it.
