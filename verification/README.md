# crossover_mod_manager

A library for managing game mods (Cyberpunk 2077, Skyrim, Skyrim Special Edition),
verified with Verus.

- `src/` is the verified library: the supported games and their detection, the mod
  database (adding, finding, removing and deduplicating mods, file conflicts, legacy
  migration), mod profiles (export and import), which files a mod archive unpacks to,
  where mod files are installed for each game, the user's settings, and what to ask the
  NexusMods API and what its answers mean. Public proof
  functions named `lemma_*` state the library's laws.
- `src/external.rs` holds the calls taken on trust: `uuid`, `chrono`, `zip`, the HTTP
  status codes (`http`'s `StatusCode`, which `reqwest` re-exports) and three functions
  of `std::path`/`str`.
- `tests/` exercises the library on concrete values.
- `app/` is the desktop side: JSON files under `~/.crossover-mod-manager`, downloads,
  writing out the files of an extraction plan, copying files and HTTP requests, all
  driven by the library's decisions.
