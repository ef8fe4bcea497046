# fluxi

Packs a selection of files into one self-extracting image and reads such
images back.

An image is laid out as

    [launcher script][signature][password digest: 32 bytes][metadata length: u32 LE]
    [metadata: JSON][payload length: u64 LE][payload: ZIP][signature][script length: u32 LE]

where the signature is `FLUXI_FLUXIONICS_V100` followed by a NUL byte and a
digest of zeros means "no password".  An encrypted payload has byte `j`
XORed with `(key + j) mod 256`.  The launcher script unpacks into a temporary
folder, waits for the program and removes the folder.

- `src/` is the verified library (Verus): the layout (`container`), the
  password digest (`hash`), the extractor's checks and payload cipher
  (`extractor`), the extractor's step function that orders the reads and
  decides when copying stops (`extraction`), the packer's bookkeeping, launcher script and metadata
  members (`packer`), the JSON record (`metadata`, through serde_json), text
  helpers (`text`) and the pack-then-extract laws (`roundtrip`).
- `app/` is a command-line front end that does the file-system work: walking
  directories (walkdir), writing and reading the ZIP payload (zip) and
  streaming the image in chunks.
- `tests/` runs the library on concrete inputs.
