# xub

A small blog: posts are markdown files under `./posts`, each opening with a
YAML-style header (`title:`, `created:`, `id:`), listed newest first and
rendered into HTML pages.

- `src/` is the library, verified with Verus: header parsing (`header`,
  `text`), posts and their listing order (`posts`, `order`), the page of a
  single post (`post`), the site's pages (`templates`), and the decisions of
  the request handlers (`router`, `write`).
- `app/main.rs` is the server: routes, sessions, and the file reads and
  writes; the library decides what each read, walk step and form leads to.
- `tests/` runs the library on concrete posts and pages.
