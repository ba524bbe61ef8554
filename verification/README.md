# XMRIGCC-Proxy Monitor

A desktop monitor for the xmrigcc-proxy HTTP API. It polls `GET /1/summary` as its
health check, shows the proxy's summary figures, lets the user poll the documented
safe `GET` routes by hand, and keeps its connection settings in `settings.json`.

The monitor's logic is a library verified with Verus; the window, the HTTP client and
the files live in a thin program around it.

## Layout

- `src/` — the verified library
  - `text.rs`: trimming, ASCII lower case, decimal numerals and unsigned parsing
  - `inventory.rs`: the HTTP API reference and the routes and config keys read from it
  - `settings.rs`: the saved settings, their URLs and their normalization
  - `rpc.rs`: request URLs and how a response (parsed by serde_json) becomes a value
    or an error
  - `json.rs`: JSON values, how they are shown (arrays and objects printed by
    serde_json), and the labeled fields shown
    for a route's output
  - `summary.rs`: the dashboard figures read from a summary, byte sizes in binary units
  - `monitor.rs`: the monitor's state and every decision it takes between requests
  - `shell.rs`: the event, click and scrolling decisions of a plain X11 shell (the
    program itself opens an `iced` window and does not use it)
  - `tabs.rs`: the dashboard tabs
- `tests/` — tests of the library
- `app/` — the program: the `iced` window, the `reqwest` client, the local clock
  and the settings files
