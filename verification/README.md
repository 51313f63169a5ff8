# runtime

Guarded memory for secrets, with every operation's contract proved.

- `src/pages.rs`: a page-aligned region between guard pages (dryoc's protected
  memory) whose pages are switched between no-access, read-only and
  read-write.
- `src/boxed.rs`: `Boxed<T>`, values kept in such a region. Every borrow is
  counted: the first one opens the pages, the last one given back seals them
  again; the contracts state exactly which borrows are allowed and what each
  one does, and proof functions state that borrows given back restore the box.
- `src/types.rs`, `src/types/`: plain byte-made value types, constant-time
  comparison (subtle) and random filling (dryoc).
- `src/utils.rs`: masking with noise, random buffers that are wiped on drop,
  and random alphanumeric file names.

`tests/` holds the tests; there is no executable part.
