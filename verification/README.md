# torch-check

`torch-check` inspects a Linux, Python and NVIDIA environment, reads the official PyTorch wheel
indexes, and recommends a wheel whose Python, platform, GPU architecture and driver compatibility
can be established without running it. A recommendation can be verified afterwards by importing
the installed package under a time and output limit.

The library in `src/` is written in Verus. Every function in it states what it returns, and Verus
proves it, but for the calls into other crates, whose contracts are taken on trust.

## Layout

- `src/model.rs`, `details.rs`, `version.rs`, `numbers.rs`: the data and its views.
- `src/host.rs`, `python.rs`, `nvidia.rs`, `toolkit.rs`, `environment.rs`, `command.rs`,
  `files.rs`: detection. What the host answers comes in as plain values; the functions say what to
  ask next and what was found.
- `src/address.rs`, `links.rs`, `snapshot.rs`, `index.rs`, `index_error.rs`: the wheel index, its
  pages, its cache, and when each is used.
- `src/rules.rs`, `checks.rs`, `resolver.rs`, `guarantees.rs`: the reviewed compatibility rules,
  the checks of one candidate, the resolution, and what holds of every resolution.
- `src/verify.rs`: the verification of an installed package.
- `src/arguments.rs`, `commands.rs`, `exits.rs`: what each command answers and its exit status.
- `src/wording.rs`, `terminal.rs`, `shell.rs`, `groups.rs`, `render.rs`, `summary.rs`,
  `redact.rs`: output for people, and its redaction.
- `src/text.rs`, `pieces.rs`, `order.rs`: texts and sequences.
- `src/outside.rs`: the calls into other crates, and all that is taken on trust about them.
- `app/`: the program around the library: arguments, files, the network, child processes, and
  serialization.
- `tests/`: tests of the library as it runs.

## What is proved

Contracts are stated over views: sequences, options, and structs of them. Properties that span
several functions are public proof functions beside what they speak of, for example:

- a recommendation is a reviewed, compatible candidate that ranks first, and a version constraint is
  a hard filter (`guarantees.rs`);
- offline mode never fetches, and a cache is used without a fetch only while it is fresh
  (`index.rs`);
- one bad link fails its page, whatever else the page lists (`links.rs`);
- one failed page prevents a snapshot, and accepted snapshots are official (`snapshot.rs`);
- a displayed command is read back by a shell as the arguments it was made from (`shell.rs`);
- text shown on a terminal holds no control characters, and wrapping keeps its words
  (`terminal.rs`);
- a redacted report names no processor identifier and no local path in its fields, and no known
  one stands in its diagnostics, check details or error, unless it overlaps the mark that replaces
  it (`redact.rs`);
- a verified installation is one whose every check passed on the selected devices (`verify.rs`).

The rules are two JSON documents, `data/cuda-driver-rules.json` and
`data/pytorch-release-rules.json`, which the program reads beside its executable.
