# revengine-dlss5

One button that sets up the DLSS 5 neural-rendering build in a DirectX 11/12 game, with or
without DLSS of its own. The rules and parsers of the tool are a library that
[Verus](https://github.com/verus-lang/verus) verifies; the program around it reads folders, the
registry and the network, and paints the window.

## Layout

- `src/` is the verified library. It does no input or output: folders come as trees of
  `tree::Node`, files as bytes or text, and what is to be written comes back as text.
  - games: `pe` (executables and their imports), `api`, `anticheat`, `exes`, `game`, `gpu`,
    `gpupref`, `diagnose` with `messages`
  - settings: `reshade_ini`, `feed_cfg`
  - the games of a machine: `library`, `renodx`
  - downloads: `net`, `json`
  - what is shown: `cli`, `tiles`, `shelf`, `session`, `setup`, `text`
  - texts, numbers, paths, sorting: `chars`, `strs`, `numbers`, `paths`, `bytes`, `order`, `tree`
  - laws that span functions: `ini_laws`, `ini_file_laws`, `ini_kept_laws`, `library_laws`, and
    the `law_` functions beside what they speak of
- `src/outside.rs` holds every contract that is believed rather than proved: the calls into
  `regex` and `serde_json`, and three of the standard library.
- `tests/` runs the library on concrete values.
- `app/` is the program: arguments, files, registry, HTTP and the egui window.

## Conventions

Paths are Windows paths as text, with a backslash between their parts. A file name that is no
text is given as an empty name. Times are nanoseconds since 1970.
