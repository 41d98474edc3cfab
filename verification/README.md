# jigsaw_puzzle

The logic of a browser jigsaw puzzle and of the tool that prepares its pieces,
verified with Verus.

- `src/` is the verified library: reading the piece list, the puzzle size and
  the packing of the texture atlas (`piece_list`, `atlas`); the input events,
  the pointer tracking and the controller that turns them into moves of the
  pieces and the camera (`queue`, `pointer`, `controller`); the pieces' states
  and stacking order (`pieces`), picking by colour (`picker`), the measures of
  a packed puzzle (`media`), resets (`reset`), addresses (`config`) and the
  strings of the UI (`dom`). Laws over several functions are public proof
  functions whose names start with `lemma_`.
- `tests/` runs the library on concrete values.
- `app/` is the program around it: the packing tool's file I/O, and the
  browser game's DOM, WebGL, ECS and floating-point camera and animations.
