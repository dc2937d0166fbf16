# svg_bench

Scene loading and render planning for a small SVG viewer, with its
contracts and proofs.

- `src/item.rs`: the render item (SVG path data, paints, stroke width,
  geometry flags).
- `src/style.rs`: reading `style` attributes through svgparser's style
  tokenizer and attribute value parser.
- `src/scene.rs`: loading the paint items of an SVG document from svgparser's
  token stream.
- `src/render.rs`: which items to tessellate and which geometry to upload.
- `src/input.rs`: what the viewer does with window events.
- `src/laws.rs`: properties of the above, stated and proved over their models.
- `app/main.rs`: the viewer program: command line, file reading, building
  lyon paths from the path data, lyon tessellation, glium buffers and the
  window loop.
