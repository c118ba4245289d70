# routeros_exporter

An OpenMetrics exporter for MikroTik RouterOS 7 devices, read over the REST API.

- `src/` is the verified library: the JSON model of the router's replies
  (`json`), character-level text operations (`text`), the metric text of each
  collector (`collectors::*`), the settings (`configuration`) and the decision
  of what a `/probe` request asks for (`probe`).
- `app/` is the program: reading the configuration files and environment,
  the HTTP server, the REST requests, and the scaling of link rates, which is
  done in floating point.
- `tests/` exercises the library on concrete replies and queries.
