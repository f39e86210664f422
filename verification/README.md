# warp10

A client library for the [Warp 10](https://www.warp10.io) time-series
platform, verified with Verus.

`src/` holds the library:

- `data` — the data model (values, labels, positions, data points) and its
  text in the Warp 10 input format, each text given by a spec function and
  every writer proved to produce it;
- `double` — double-precision numbers as their shortest decimal form, written
  as `f64`'s `Display` writes them, and read back from what `{:e}` writes
  (the agreement with `f64`'s own texts is checked by the tests in
  `tests/doubles.rs` on given values, not proved);
- `urlencode` — the percent-encoding of names and labels (every byte but an
  ASCII letter or digit) and of string values (which also keep `{ } " : '`,
  so that a JSON text stays readable), through the `percent-encoding` crate;
- `time` — instants as microseconds since the UNIX epoch (through `chrono`);
- `sender` — the body of an update request, one line per data point;
- `utils` — the headers of an update request and the error header of a
  response (through `http`'s header map);
- `client` — the client's settings and the update requests it makes
  (through `url`);
- `error` — the errors of making a client and of making or sending a request;
- `text` — decimal digits, joining, and string building.

`app/` holds the I/O: the HTTP client (`reqwest`) that sends the requests the
library builds, and the conversions from `f64`, `chrono` dates and `serde`
values into the library's types.
