# Keyence collector

A service that receives BMP images from a code reader over FTP and hands each of them, with
its file name, to a parent process. A validation client checks a running collector from end
to end.

- `src/` is the library, verified with Verus:
  - `config`, `config_laws`: the `key=value` configuration and its check;
  - `locate`: where the configuration file is looked for;
  - `session`, `session_laws`: the FTP server's answers, as a state machine;
  - `pipeline`, `pipeline_laws`, `frame`: from an upload to the message for the parent process;
  - `delivery_laws`: from a session to the parent process;
  - `validator`, `exchange`: the validation client, and client and server together;
  - `attempt`: how long a connection is waited for;
  - `line`: the lines in which client and server talk;
  - `text`, `decimal`, `ipv4`: strings, numbers and addresses.
- `app/` holds the sockets, files and threads around it.
- `tests/` runs the library on concrete values.

The modules that end in `_laws`, and `exchange`, hold what is true of the library as a whole:
each public proof function there states one property. So do the public proof functions in the
other modules whose names do not begin with `lemma_`.

Three functions of the standard library are trusted rather than proved:
`std::path::Path::is_absolute`, which decides on Windows of paths that do not start with the root
of a drive, the comparison of two paths, and `String::from_utf8`.
