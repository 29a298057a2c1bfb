# genio

Generic I/O traits for Rust, verified with Verus.

`Read`, `Write`, `BufRead`, `BufWrite` and `ExtendFromReader` let each implementation choose its
own error types, so that infallible in-memory readers and writers say so in their types.
Readers fill `OutBuf`s: write-only views of byte buffers that track how much has been written
and how much of the storage is known to be initialized.

Layout:

- `src/lib.rs`: the core traits, their pending-bytes and output models, and the impls for byte
  slices and references.
- `src/buffer/`: `OutBuf`, `Buffer` and the initialization markers.
- `src/bufio.rs`: buffered reading and writing, `BufWriter`.
- `src/alloc_impls.rs`: the impls for `Vec<u8>` and `BufReaderRequire`.
- `src/byte_order.rs`: reading and writing numbers through the `byteorder` crate.
- `src/error.rs`, `src/ext.rs`, `src/util/`: error types, extension methods and adaptors.
- `src/std_impls.rs`: the wrappers between these traits and `std::io`.
- `app/`: the `std::io` trait impls, the retry loop of `Restarting`, and float helpers, which
  Verus does not check.
- `tests/`: tests run against the compiled library.

Verus verifies every function in `src/` against its contract, where it has one. The calls into
`byteorder`, `void` and a few `Vec` methods go through small trusted wrappers whose doc comments
say what is assumed of them.
