# clamav_client

The core of a desktop client for the ClamAV antivirus engine, written in
Verus: the functions under `src/` are verified by Verus against their
contracts. Where a result depends on the file system (whether a path
exists), the function that asks hands the answers to a verified function
with an exact contract, and states that its result is that function's
result for some answers.

- `src/` is the library. It reads what `clamscan`, `clamdscan` and
  `freshclam` print, chooses the program and its arguments, follows a scan
  line by line and writes its report, keeps the quarantine index and the
  scan history, and takes the decisions of real-time protection and of the
  automatic signature update. `src/laws.rs` states and proves the
  properties that span several functions.
- `app/` is the desktop program around it (Tauri): it runs the engine,
  reads and writes files, watches folders and talks to the interface,
  handing the library plain values and acting on what it returns.
- `tests/` runs the library on concrete values.

Calls into the standard library that the proofs rely on (joining,
comparing and sorting paths, a file's name, whether a path exists, upper
case, collecting characters) go through a few small functions marked
`#[verifier::external_body]`, each with a doc comment saying what is assumed
of the call; results that depend on the platform's path rules are named by
uninterpreted spec functions. The user's folders are read by `app/` with the
`dirs` crate and handed to the library.
