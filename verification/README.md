# spatialbench_s3

The verified core of a streaming S3 object writer.

- `src/uri.rs`: reads the bucket and key from an `s3://bucket/key` URI; the
  URL itself is parsed by the `url` crate behind one trusted wrapper.
- `src/writer.rs`: `S3Writer`, which buffers written bytes, cuts them into
  32 MiB multipart-upload parts, and decides how a finished object is
  uploaded (multipart, one PUT, or nothing). A part that could not be sent
  is reported back with `send_failed`, which takes that write's bytes off the
  total and keeps the upload task's error where the failed send took it.
- `src/upload.rs`: `MultipartTask`, the background multipart-upload task as a
  state machine (pending parts first, part numbering, abort on a failed
  part, completion).
- `src/laws.rs`: proofs over any sequence of writes and any run of the task:
  the uploaded bytes are the written bytes, parts meet the part size, memory
  stays below one part, small objects use one PUT, a write whose part could
  not be sent counts nothing, parts are numbered 1, 2, 3, ... in order with
  pending parts first, and a failed part aborts the upload.
- `app/`: the I/O around the library: the AWS client from the environment,
  the tokio task and channels, the object store calls, and `std::io::Write`.
