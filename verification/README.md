# imap_next

Sans-I/O building blocks for IMAP clients and servers, verified with Verus.

The library (`src/`) holds the decisions of the protocol flows and proves them against
their contracts:

- `message`: splitting received bytes into lines, literals and messages, with literal
  announcements (`{n}` and `{n+}`) parsed from the line ends.
- `receive`: the receiving side of both flows on top of `imap_codec`'s `Fragmentizer`, and
  the decoding of complete messages.
- `codec`: `imap_types`' messages, decoded and encoded with `imap_codec`'s codecs.
- `client_send`, `client`: the client's command queue (literals that wait for the server's
  consent, AUTHENTICATE, IDLE) and its receiving of greetings and responses.
- `server_send`, `server`: the server's response queue, its options, its receiving of
  commands, the answer to announced literals, and the AUTHENTICATE and IDLE exchanges.
- `sort`: the order of fetched messages by sort criteria, where the server cannot sort.
- `handle`, `tag_generator`: handles of enqueued messages and unique command tags.
- `progress_stream`, `stream`: the buffers between a state and a byte stream, and what the
  I/O driver does after each progress step.
- `proxy`: the proxy's configuration and the capabilities it passes on.

`app/` is ordinary Rust around it: the async stream driver, IMAP encoding of the user's
messages with `imap_codec`, the TOML configuration file, PEM loading, and process-wide counters.
