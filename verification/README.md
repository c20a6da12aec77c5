# place_downloader

A terminal program that keeps Reddit accounts in a configuration file and logs
them in to fetch their session cookie and JWT.

- `src/` is the library, written in Verus: the configuration model and its
  operations (`models`), where the configuration file lives (`config`), what
  each menu does with a typed line (`input`, `menus`), the user agent, headers
  and JWT expiry (`reddit`), reading Reddit's answers (`response`), and the
  login and token-refresh exchanges as step functions (`flows`). `laws`
  states properties that span these operations. `bindings` holds the calls
  into `base64`, `serde_json`, `rand` and `std::str` with the contracts the
  library relies on.
- `app/` is the program: the menus on the terminal, the JSON file on disk and
  the HTTP requests, each driven by the library.
- `tests/` runs the library on concrete values.
