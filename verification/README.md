# mnml-msg-mandrill

A terminal browser for Mandrill (Mailchimp Transactional): recent sends,
templates, tag stats and webhooks, one tab each.

## Layout

- `src/` — the verified library.
  - `config.rs` — the configuration and the rules it must meet.
  - `mandrill.rs` — the API data model: labels, web-console URLs, the
    request body with its `"key"`, the reading of a response and its
    error envelope, the search window, and the order of each list.
  - `sort.rs` — stable ordering by key and the list cap.
  - `app.rs` — the application state and its transitions; the front end
    performs the outside work (HTTP, clock, browser, clipboard, pager)
    and hands each outcome back.
  - `keys.rs` — key bindings and what each action does.
  - `ui.rs` — what the screen shows: tab labels, the scrolled list, row
    texts, colour cues, the detail panel and the panels' placeholders.
  - `text.rs` — decimal rendering, joining, comparison, line splitting.
- `app/` — the program around it: argument handling, the config file,
  the HTTP client, the terminal, clipboard and browser.
- `tests/` — tests of the library.
