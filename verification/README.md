# nautilus

A Telegram bot that downloads media from links (TikTok, Instagram, YouTube,
Twitter/X, Reddit and more) through the Astra backend and uploads it to the
chat without touching the disk.

Most of what the bot computes and decides is a library verified with Verus;
what needs the network, the Telegram client, the clock or floating point
stays in an unverified program around it:

- `src/` — the library. Link routing (`endpoint`), the choice of downloads
  from the backend's answer (`astra`, `selection`), captions and the order of
  sent messages (`delivery`), the steps of a download request and what each
  one counts (`flow`), command and button parsing and what a button press
  does (`commands`),
  per-user settings, topic whitelists and rate limits (`settings`, `topics`,
  `ratelimit`), status texts (`stats`, `diagnostics`), and the scrapers'
  parsing of links and pages (`scrape`, `reddit`, `instagram`, `sites`,
  `ytdlp`, `extractors`). Calls into the `url`, `scraper` and `dashmap`
  crates go through small trusted wrappers (`weburl`, `html`, and the map
  wrappers in `settings` and `ratelimit`).
- `tests/` — tests of the library on concrete values.
- `app/` — the program: configuration, the Telegram session and update loop
  (which performs the actions that the library's step functions choose),
  HTTP calls, streaming uploads, and the figures that need floating point.
