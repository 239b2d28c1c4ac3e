# img2jx

Converts RGBA images to a JSON document and back. Each pixel of the document
carries its column `x`, its row `y` and its colour as `#RRGGBBAA`.

The library under `src/` is written in Verus and verified:

- `schema`: the document types, the colour notation (`rgba_to_hex`,
  `hex_to_rgba`) and the laws that relate the two.
- `decode`: the schema check (`validate`) and reading a document's pixels into
  an RGBA image, row by row (`decode_row`, `assemble_image`) or whole
  (`decode_buffer_cpu`).
- `encode`: writing an RGBA image as a document, row by row (`encode_row`) or
  whole (`encode_rows_cpu`, `encode_document`).
- `gpu`: packing pixels into the 32-bit words that the compute shaders work on,
  and reading the shaders' output back.
- `raster`: the RGBA image of the `image` crate, reached through a few trusted
  wrappers.
- `laws`: properties across these modules, such as that an encoded image passes
  the schema check and decodes back to its bytes.

`app/` is the command-line program: argument parsing, file and image I/O, JSON
(de)serialisation, the thread pool that runs the per-row functions, and the GPU
device.
