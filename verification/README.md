# reprox

An SNI router with a fallback site, verified with Verus.

A connection's first TLS record is read without taking part in the TLS session.
If it asks for a configured server name, the connection is forwarded to the
service behind that name, either untouched or with TLS terminated here.
Everything else gets a static site over HTTPS. Not a byte that was read on the
way is lost.

## Layout

- `src/` is the library. It makes every decision, and each of its functions is
  proved to do what its contract says.
  - `sni` reads server names out of ClientHellos.
  - `config` holds the configuration: overrides, validation, what a reload takes
    over. `reload` carries a reload out, all of it or nothing.
  - `accept`, `limiter`, `ip_limiter` and `rate_limiter` decide which connections
    are taken on.
  - `route` decides where a connection goes (`router`), forwards it to a service
    (`proxy`), and answers for the fallback site (`serve`, `fallback`).
  - `metrics` counts, and shows what was counted.
  - `tls` loads certificates and keys. `prefixed_stream` replays what was read
    ahead.
  - `text`, `net`, `time`, `rate`, `http_util`, `buffers` and `tables` are what the
    others are built from. What the library takes for granted of other crates stands in
    the last three and in `tls`, and what it takes for granted of the standard
    library in `text`, with a comment for each function.
- `app/` is the program: sockets, files, signals, TLS sessions and HTTP framing.
- `tests/` runs the library on concrete values.

Public proof functions whose names begin with `law_` state what holds of the
library as a whole.

## Time and rates

The library reads no clock. Times are nanoseconds on the monotonic clock of the
process, except where an HTTP date is meant, which is seconds since the Unix
epoch. A rate is a decimal number per second, its digits and its exponent, and
tokens are counted in parts of 10^-38.
