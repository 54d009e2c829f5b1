# silero_vad_crs

Voice activity detection around the Silero VAD model, with the logic around
the model verified.

- `src/status.rs`: the model's status codes and the library's error type.
- `src/stream.rs`: input sizes and the rolling context of a stream; samples
  travel as the bit patterns of their `f32` values. Laws: the context put
  before each chunk is the tail of the stream so far.
- `src/timestamps.rs`: the specification of the scan that turns per-frame
  speech decisions into padded speech timestamps.
- `src/scan.rs`: the executable scan and padding, proved equal to it.
- `src/timestamp_laws.rs`: timestamps never overlap, lie inside the audio,
  end after they start, last longer than the minimum speech duration, fall on
  frame boundaries when unpadded; padding only widens, and audio without
  speech has no timestamps.
- `app/`: the native model behind FFI and the floating-point front end
  (threshold comparisons, `TimestampConfig`, `Display` for errors).
