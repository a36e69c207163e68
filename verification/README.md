# terse

Compresses LLM conversation history before it reaches the API: assistant
openers and closers, user pleasantries, filler words, structural lead-ins,
verbose phrasing and markdown decoration are removed. Fenced code, inline
code and URLs are set aside behind placeholders while the tiers run and put
back afterwards. They are never lost: a match stops at a placeholder it runs
into, and a tier whose output no longer holds every protected region (a
closing pleasantry that runs on to a URL, for instance) is passed over.

The library is written in Verus and verified:

- `src/mask.rs` swaps protected regions for placeholders and puts them back;
  `mask_unmask_roundtrip` proves that, for any text without NUL, putting
  the blocks back gives the text again and every block occurs in it.
- `src/pipeline.rs` proves with `compression_keeps_protected` that every
  protected region of a text without NUL occurs in what compression returns.
- `src/tiers/` holds the rule, NLP and LLM tiers; `src/pipeline.rs` runs them
  and counts tokens (`src/tokens.rs`).
- `src/install.rs` builds and removes the shell hook; `uninstall_undoes_install`
  and `install_is_idempotent` are proved there.
- `src/proxy.rs` compresses a request's history (`compress_request`, which
  sends the current prompt back as it came), decides what is forwarded, and
  updates a session file (`record_call`); `src/gains.rs`,
  `src/report.rs`, `src/utils.rs`, `src/settings.rs` and `src/banner.rs` the
  rest of what the commands compute.
- `src/pattern.rs` and `src/text.rs` hold the trusted calls into `regex`,
  `fancy_regex` and std that the rest is proved against.

`app/` is the command-line program around the library: argument parsing,
files, standard streams, the HTTP proxy and the self-update.
