# t_rust

Input and output plumbing for zkVM guest programs, verified with Verus.

- `src/frame.rs`: the frame format (a 32-bit little-endian length, then the
  payload), its encoder and decoders, and the laws that decoding undoes encoding.
- `src/reader.rs`, `src/writer.rs`: `ArgsReader` and `ArgsWriter` over bytes.
- `src/local.rs`: the three channels of the local backend (inputs, private and
  public outputs) and the functions a guest and its host use on them.
- `src/jolt.rs`: the 32-byte register of the Jolt backend and the `Handle` trait.
- `src/args.rs`, `src/host.rs`: arguments, how each backend turns them into
  guest inputs, and the mode and plan of a prover host.
- `app/lib.rs`: the arguments file, bincode on typed values, process-wide
  channels mirrored to their files.
