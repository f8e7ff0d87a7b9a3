# dhara_storage

A verified core for a file-storage runtime: the versioned binary package
containers (`RPKG`, `DHBIN` and the checksummed `RPKG` trailer format), the
file-definition database and content analysis engine, the definition builder's
package rules, TrID definition reduction and MIME canonicalization, the
builder's command surface, interactive shell and reports, path-based storage
handles, watch event mapping and debouncing, native status codes, operation
records and write sessions, and the repository tool's environment file, version
arithmetic and project-file synchronization (the written project text is
stated up to the order of attributes, which the XML parser and writer take
from hash maps).

Layout:

- `src/` — the library, written in Verus. Every executable function carries a
  contract; calls into `lz4_flex`, `sha2`, `rmp-serde`, `semver` and `xmltree` go through
  small trusted wrappers whose contracts are documented where they are declared.
- `tests/` — ordinary Rust tests against the compiled library.
- `app/` — the command-line front end (argument parsing, the line-driven shell,
  printing) and everything that touches the disk: file and directory operations,
  the repository tool's configuration and environment files, and the
  floating-point confidence percentages of content analysis.
