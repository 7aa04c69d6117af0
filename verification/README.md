# segmentation_etna

A verified library for the ETNA property workload of a Unicode text
segmentation library, written in Verus.

Three properties of the segmentation code are checked:

- `GraphemeNextBoundaryEmptyChunk`: a grapheme cursor handed an empty chunk at
  its own offset asks for the next chunk and does not panic;
- `GraphemePrevBoundaryChunkStart`: a grapheme cursor handed a chunk that
  starts at its own offset asks for the previous chunk and does not panic;
- `AsciiWordBoundIndicesMatch`: on ASCII text the fast word-boundary path
  yields the same `(offset, segment)` pairs as the Unicode path.

The segmentation code under test is passed in as a function. The library
decides each property's domain, prepares the call, and judges the outcome;
around that it holds the runners' logic: choosing inputs from integer tags,
generating and mutating texts, reading framework statuses, adding up run
costs, and rendering the single JSON line a run reports.

Layout:

- `src/`: the verified library, one module per concern;
  the laws are public proof functions beside the functions they speak of.
- `tests/`: the witness inputs of each property, and concrete checks of every
  function.
- `app/`: the command-line runner around the library: argument handling,
  timing, panics, the property-testing frameworks, and the calls into the
  segmentation code under test.
