# launcher

The verified core of a Call of Duty 4 launcher, written in Verus.

- `src/` is the library. Its functions are verified, except a few trusted
  wrappers (marked `external_body`) that call std's UTF-8 decoding, the `regex`
  crate, serde_json's parser and curl's header list, whose contracts are taken from their sources:
  - `iw3mp`: the Adler-32 checksum (as RFC 1950 defines it) that tells whether the
    game image is unmodified, and the large-address-aware flag of its header;
  - `filesystem`: where the game's per-user directories are;
  - `http`: collecting a response body, and the settings of a GET request
    (URL, timeout, curl header list);
  - `miles32`: the errors of loading the Miles Sound System library;
  - `updater`: the GitHub release information read from the reply (status, JSON
    parse, fields), finding an
    asset by regular expression, and reading the `hashes.txt` list;
  - `text`: characters, Unicode white space and UTF-8 decoding.
- `app/` is the part that meets Windows, the process's memory, files, the network
  (curl transfers) and dynamic loading (libloading).
- `tests/` runs the library on concrete values.
