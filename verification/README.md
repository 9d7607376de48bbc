# kagi_session_mcp

An MCP server that searches [Kagi](https://kagi.com) with the session the
user already has in a browser. The logic is a Verus-verified library; the
program around it does the I/O.

## Layout

- `src/` — the verified library.
  - `domain/` — sessions, queries, results and errors, with their views.
  - `text.rs`, `num.rs` — characters, lines, whitespace, numbers.
  - `html.rs` — the parsed HTML document as the parsers see it (`scraper`).
  - `adapters/browser/` — where Chromium-family browsers, Firefox forks and
    Safari keep their cookies, the order profiles are tried in, and what a
    cookie row means; Safari's `Cookies.binarycookies` format.
  - `adapters/crypto/` — Chromium cookie decryption per platform
    (`pbkdf2`, `sha1`, `aes-gcm`, `serde_json`, `base64`).
  - `adapters/kagi_http.rs` — the Kagi protocol: request URLs, response
    checks, the event stream and the assembly of answers.
  - `adapters/serp_parser.rs` — the result pages, panels, lenses, verticals
    and FastGPT answers.
  - `adapters/url_fetcher.rs` — page fetches: allowed URLs, headers (the Kagi
    cookie only to Kagi's hosts), readable text and the size limit.
  - `app/discovery.rs` — the decisions of session discovery: manual token,
    cache, which browser answer wins.
  - `mcp/` — the tools' arguments and payloads, and what each tool reports.
- `app/` — the program: stdio MCP server (`rmcp`), HTTP (`reqwest`), the file
  system, SQLite and the platform keystores.
- `tests/` — tests of the library on concrete values.
