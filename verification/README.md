# zkmr

A small map-reduce service in which untrusted workers square the numbers 1 to
10 and prove, with Miden VM execution proofs, that they ran the requested
program. The server verifies each proof, records one result per job, and
announces the sum once every job is done.

- `src/` is the verified library (Verus): decimal text, path selection, job
  bookkeeping, submission validation, proof packaging, and the trusted
  declarations of the Miden VM and base64 calls it relies on (`miden.rs`,
  `encoding.rs`).
- `app/` holds the server program (warp, tokio), the bookkeeping actor, the
  JSON message forms and the browser client (web-sys).
- `tests/` exercises the library, comparing path and number handling with the
  standard library.

## Miden VM crates

The VM is used through its component crates (`miden-assembly`,
`miden-processor`, `miden-prover`, `miden-verifier`, all 0.7.0), which the
`miden-vm` 0.7.0 umbrella crate only re-exports. The umbrella itself cannot be
built here: its dependency `miden-stdlib` 0.6.0 has a build script that
rewrites documentation inside its own (read-only) source directory. The
service needs no standard-library module, so the components give the same
assembler, prover and verifier with the same API.

The Miden assembly texts of the programs are not part of the sources: the
server reads the job program from `masm/map.masm`, and the client takes the
texts of the programs named in `PROGRAM_NAMES` from the page that embeds it.
