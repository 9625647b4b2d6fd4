# Rusher

A GitHub DNS accelerator: it reads the address ranges GitHub publishes,
probes addresses of each GitHub domain, keeps the fastest one per domain, and
answers DNS queries for those domains with it.

## Layout

- `src/` — the verified library (Verus).
  - `config/` — the configuration model, its defaults, where the file is
    looked for, and validation.
  - `scanner/` — which addresses are probed for a domain (`ranges`), the
    table of probe results and the fastest address (`scanner`), the GitHub
    meta document with its cache and the sorted range list (`github`), and
    the scan cache (`cache`), and how resolver tool output is read (`lookup`).
  - `dns/` — DNS messages and their wire form (`wire`), answers from the
    fastest addresses (`resolver`), the answer cache with its name index
    (`cache`), and request handling (`server`).
  - `http/` — requests, responses, errors, and how a probe's answer is judged.
  - `counter`, `time`, `net`, `text`, `assoc`, `bits`, `utils` — a bounded
    counter, durations, addresses, text building, association lists, powers of
    two and rounding, helpers.
- `tests/` — tests of the library.
- `app/` — the `rusher` program: command line, configuration files, logging,
  signals, the HTTP and UDP traffic, and the loop that runs the scans.
