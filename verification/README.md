# stork

stork injects a native DLL into a Windows AMD64 process through borrowed
handles, without RPC and without generated remote code. This crate holds the
decisions of that library, written in Verus: everything that is computed or
decided is executable Rust with a contract, and the contracts are proved.

Nothing in `src/` calls the operating system. What alternates between a
decision and a system call is a state machine: it says what it wants done, a
caller does it and reports what came of it. `app/` holds those callers for
Windows.

## Layout

- `src/error.rs`: errors, the composition of an operation with its cleanup, and
  the two recovery questions, whether a load is pending and whether the target
  must not resume.
- `src/target.rs`, `src/injector.rs`: loader states, the strategy gate, the
  order of an injection, and the choice of a primary thread.
- `src/paths.rs`, `src/payload.rs`, `src/text.rs`: path policies, validated
  payloads, and text.
- `src/pe/`: typed access, header decoding over pelite's checked views, PE32
  widening, and the import block.
- `src/remote/`: bounded transfers, walks over regions, images and modules, the
  search for a nearby allocation, the lookup of `LoadLibraryW`, and target
  validation.
- `src/strategy/`: the three strategies, the header transaction with its
  rollback, and the commit of headers and CLR flags.
- `src/harness/`: what the process-level test harness composes and decides.
- `tests/`: tests on concrete values, with simulated processes.
- `app/`: the Windows calls around the library.

## What is proved

Public proof functions state the properties that span functions. Among them:

- A header transaction, and a commit of two of them, changes the target
  completely or not at all, unless its outcome forbids resume
  (`strategy::rollback`).
- Combining errors loses no recovery fact (`error`).
- A pending load keeps its argument in the target, and an argument that could
  not be written is released (`strategy::load_library`, `strategy::argument`).
- A planned image decodes, imports the payload first, and keeps its other
  imports in order (`strategy::hijack`, `pe::imports`).
- Widened PE32 headers decode as a native image with the same values and
  sections (`pe::convert`).
- Every walk over remote memory is bounded and advances; a finished one has
  found all that it looks for (`remote`, `strategy::import_table`).
- The search for the main executable ends in the one mapping that is no DLL, has
  the expected identity and lies whole in its allocation (`remote::images`).

## What is trusted

Calls into `pelite`, `dataview` and `std` stand behind small functions whose
contracts are believed, each with a comment that says what is claimed.

pelite reads in place, so images are copied to where their PE headers are
aligned before they are viewed. A section table or exports that no copy can
align are read field by field instead (`pe::tables`), against the same
statements. pelite takes a little-endian machine for granted, and so does this
library.

Handles and remote addresses are plain integers, and paths are UTF-16 units.
