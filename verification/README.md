# akasha

A terminal dashboard for the Mihomo proxy core, with its logic verified by Verus.

- `src/` is the verified library: the log store and logger, the HTTP/1.1 framing of
  requests and responses on Mihomo's local socket, the connection pool's rules, the
  subscription usage header, the pages' navigation and display rules, the shell setup
  of the `praxy` function, and the package paths.
- `tests/` runs the library on concrete values.
- `app/` is the program around it: the terminal interface, the socket and network
  I/O, the configuration files and the command line.
