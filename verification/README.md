# vavlt

The engine of a photo-library vault: it sorts a user's files into classes by
their headers, estimates from metadata alone what each tier would give back,
runs the lossless codecs over the files a host hands it, proves every
roundtrip it claims, and keeps an append-only, hash-chained audit log.

`src/` is the library, written in Verus; every function in it carries a
contract, and the properties that span functions stand there as proof
functions named `law_*`:

- `classify`: header sniffing, with the name only a claim.
- `estimate`, `rounding`: the metadata-only estimate, computed exactly as
  binary doubles round it.
- `codecs`, `engine`, `item`: the codecs behind one set of contracts and the
  per-file decision of a run.
- `audit`, `audit_laws`: the log's line format, its tolerant reader and its
  chain.
- `fmt`, `calendar`: byte counts and timestamps as the user reads them, and
  the proof that the dates are the Gregorian calendar's.
- `hosts`, `picture`, `thumb`, `video`, `report`, `tier`, `film`: the hosts'
  ingress rules, decoded pictures and tiles, the `ffmpeg` arguments and log
  reading, report totals, per-codec rows and dedup accounting, tier policy,
  and the integer geometry of the film lab's plates.

`app/` is the ordinary Rust around it: the filesystem, threads, `ffmpeg`,
the lossy AVIF measurement, the float reports and the serde forms of the
library's values. `tests/` runs the library against the outside crates.
