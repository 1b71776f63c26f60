# loopia

A command-line client for the Loopia XML-RPC API (domains, subdomains, DNS
zone records, billing, invoices and reseller operations), whose core is a
library verified with Verus.

## Layout

- `src/` — the verified library.
  - `value.rs`, `json.rs`: the values that calls take and return, and their
    compact JSON text.
  - `xmlrpc.rs`, `parse.rs`, `xml.rs`: writing XML-RPC requests, reading
    responses and faults (the XML events come from `quick_xml`).
  - `roundtrip.rs`: a value written as a response parameter reads back as itself.
  - `client.rs`: the request document of a call, and what an HTTP reply means.
  - `account.rs`, `config.rs`: choosing credentials; the stored accounts,
    kept in name order.
  - `commands/`: what each command asks of the API, and what it reports.
  - `error.rs`, `output.rs`, `readme.rs`: error classes and exit codes, the
    error envelope, and the agent manual.
- `app/` — the program around it: argument parsing, the environment, the
  configuration and password files, HTTP, prompts and printing.
- `tests/` — tests of the library.
