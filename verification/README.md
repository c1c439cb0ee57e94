# simple_wallpaper

`swp` manages a directory of wallpapers, named lists of them, background
rotation, and a small GUI. This crate holds its logic as a Verus-verified
library; the program around it lives in `app/`.

- `src/` — the verified library: interval parsing, path handling, wallpaper
  discovery and word matching, the wallpaper index and lists (with their files and the list
  player), playback decisions and the worker-stopping state machine, the
  desktop backends' commands and outcomes, thumbnails (decoded and fitted
  with the `image` crate behind trusted wrappers), and the GUI's update
  logic and window texts. Contracts are stated over `Seq`/`Map`/`Multiset` models; the
  public `lemma_*` proof functions state the library's laws.
- `tests/` — tests on concrete values.
- `app/` — `main`, argument parsing (clap), prompts (inquire), coloured
  output, files and JSON (serde), processes and signals (libc), writing
  thumbnails to the cache, and the iced window.
