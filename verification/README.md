# cfml_browser

A headless-browser extension for a CFML engine (`browserFetch()`, `Browser()`,
`Page`, `browserServer()`), split in two:

- `src/` — the verified library. The extension's decisions are here with
  Verus contracts, apart from those on floating-point values: URL glob
  matching for blocking and mocking, the per-page navigation history behind
  `back()`/`forward()`, the bookkeeping of browser contexts, pages, mock rules
  and servers on the service thread (`close()` drops a browser's profile and
  its pages; a dropped handle keeps the profile while its pages live), how
  stopping a server checks its port, visible-text
  extraction and whitespace collapsing over a plain DOM model, link
  resolution, page-range and paper-size parsing for `pdf()`, the JavaScript
  snippets the interaction verbs run (with exact JSON string quoting), the
  reading of evaluation replies, cookie checks, `extractQuery()` columns,
  markdown conversion and the pixel counts behind `screenshot()`'s ink report.
  Laws that span several calls are public proof functions named `law_*`.
- `app/` — the CFML module around it: argument reading, the engine's service
  thread and its message loop, and the floating-point parts (viewport sizes,
  PDF inches, the ink ratio).
- `tests/` — runs the library on concrete values, with the outside crates
  linked.
