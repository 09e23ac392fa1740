# kirei

A GPU-drawn widget toolkit (wgpu, winit, glyphon) whose interaction logic is
verified with Verus.

- `src/` is the verified library: widget identifiers (FNV-1a over tree paths
  and keys), keyboard focus and Tab cycling, per-widget state storage, the
  ID scope used while walking the widget tree, the text-editing model of
  single- and multi-line inputs (selection, clipboard commands, character
  limits, sanitizing), word wrapping into display lines, the state rules of
  buttons, checkboxes, radio buttons, tabs, drop-downs, context menus, modal
  dialogs and tooltips, and the renderer's bookkeeping (draw-pass ordering,
  draw-call batching, texture IDs).
- `app/` is the rest: the wgpu/glyphon renderer, the theme, and the widgets'
  measuring, layout and painting, which work in f32 screen space and call the
  library with the outcome of their hit tests.
- `tests/` exercises the library on concrete inputs.
