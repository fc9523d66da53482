# lighthouse_api

A verified library for the beacon-node API of an Ethereum consensus client and for the set of
validators that a validator client manages.

- `src/text.rs`: decimal and hexadecimal renderings and parsings, with their round trips.
- `src/types.rs`: the identifiers that appear in API paths (states, blocks, validators, slots,
  roots), their text forms and parsers.
- `src/eth2.rs`: the client side: endpoint paths and queries, the API base URL, status codes and
  how a response is judged (`ok_or_error`, `ok_or_not_found`, `Endpoint::verdict`).
- `src/http_api.rs`: the server side: the routes that the server answers, and the law that the
  client's requests reach them.
- `src/validators.rs`: validator definitions, the lockfile name, the step function that
  initializes one validator, initialized validators, and the step function that
  brings the initialized set in line with the definitions, with its laws.
- `app/`: the HTTP client (reqwest), the HTTP server (warp), and the filesystem side of the
  validators (keystores, lockfiles, definitions file), around the library.
