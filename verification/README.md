# dmodman

The core of a Nexus Mods manager for Linux, written in Verus: the records it
keeps of downloaded archives, installed mod directories and cached API data,
the update check, the configuration and its directories, the paths of every
stored record, and the decisions of an installation. Every function in `src/`
carries a contract. Verus proves those of the library's own functions; the
few functions that call `indexmap`, `dirs`, `shellexpand`, `chrono` and
`String::push` are marked `external_body`, and their contracts are trusted.

Layout:

- `src/` – the verified library.
  - `api` – the API records the library reads.
  - `cache` – archives, installed mods, the metadata index that ties them to
    API data, file lists, the update check.
  - `config` – profiles, the configuration builder, the locations of records.
  - `db`, `local` – the per-game layout of downloads and cached records.
  - `install`, `extract` – installation decisions and archive status codes.
  - `path`, `text` – path joining and normalisation, decimal text.
  - `cli`, `cmdline`, `logger`, `log`, `messages`, `nxm_socket`, `request`,
    `download`, `lookup` – the program's smaller rules.
- `tests/` – tests run against the compiled library.
- `app/` – the program around the library: argument handling, files, the
  socket, and the serde forms of the stored records.
