# ai_cache_cleaner

A cleaner for the caches that AI tools leave in a home directory (Hugging Face,
Ollama, PyTorch, pip, Cursor), as a library whose decisions are proved with
Verus, and a small command-line program around it.

- `src/` — the verified library:
  - `locations` — the known caches and their paths below the home directory;
  - `scanner` — which entries of a cache are offered, under which name, and size totals;
  - `manifest` — the size an Ollama manifest declares;
  - `cleaner` — the largest-first order of items and the account of a cleaning session;
  - `cli` — what a command line asks for, and the dry-run wording;
  - `display` — sizes as text (`1.50 KB`) and the layout of the prompts;
  - `text` — small string helpers.
- `app/` — the program: argument parsing, the disk, the terminal and the prompts.
- `tests/` — tests of the library.
