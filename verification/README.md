# banzhu-spider

A crawler for a novel site, with a local SQLite store, full-text search and
TXT/EPUB export. The decisions of the crawler and the handling of text are a
library verified with Verus; a thin command line drives it.

## Layout

- `src/` — the verified library:
  - `text`, `numfmt`: string and number primitives with exact specifications.
  - `pages`, `listing`, `parse`, `turnstile`: reading the site's pages
    (book details, chapter lists, section pages, latest-update lists, the
    DOM tree searched for the Cloudflare widget).
  - `crypto`, `dict`: recovering obfuscated section text (RC4 reordering,
    AES, font and image dictionaries).
  - `crawl`, `stop`, `scheduler`, `pipeline`, `retry`, `cf`, `bypass`: what a
    crawl fetches next, when it stops, when a request is retried, and how the
    Cloudflare cookies are kept.
  - `import`, `export`, `search`, `cache`, `api`, `cli`, `models`, `error`:
    local import and export, search expressions and results, and request
    parameters.
  - `ext`: the calls into `regex`, `scraper`, `base64`, `md5`, `aes`/`cbc`,
    `encoding` and `rand`, each with the contract the rest relies on.
- `tests/` — tests of the library on concrete values.
- `app/` — the `banzhu` command line: download, export, search, preview,
  import and configuration, over `rusqlite`, `reqwest`, `epub` and
  `epub-builder`.
