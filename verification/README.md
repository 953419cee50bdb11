# flit

Flit is a small self-hosted drop box: post a text, a link or a file from one
device and pick it up on another, hand out a share link to one item, or a guest
drop that can only post into the inbox.

The library in `src/` holds what the server decides, verified with Verus:

- `text` — white space, trimming, link detection, first-line labels, HTML
  escaping and header-safe names, stated over sequences of characters;
- `headers` — the token a request presents and whether it is let in, the base
  URL, the language of guest pages, the pairing URL, the tunnel's public URL;
- `item` and `inbox` — items, their expiry, and the inbox (a hash map by id
  plus the order of arrival), with listing newest first and reaping;
- `flit` — the whole state and one method per request, with the replies;
- `pages` — the HTML of share and guest pages;
- `limits` — the per-client rate limit and the idle clock of the ephemeral mode;
- `outside` — the clock, UUIDs and QR codes, behind trusted contracts;
- `laws` — properties across operations (read after write, one-time links,
  expiry, access).

`app/` is the HTTP server around it (axum routes, the event stream, the reaper
and tunnel tasks, static assets), and `tests/` runs the library on examples.
The web client's files are served from a `static/` directory next to the
server.
