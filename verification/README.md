# starfarer

The Starfarer space game and its engine, with the engine's and the game's
decision logic verified by Verus.

- `src/` is the verified library. `lepton` is the engine: key tracking and
  frame pacing (`backend`), object identifiers, body pairing and collision
  classification (`physics`), device selection and resource bookkeeping
  (`graphics`), shader inputs and lights (`shader`, `input`), font atlases
  (`fonts`, `ui`). `planet` and `terrain` tile planets and decide which map
  squares to load at which detail; `ships` identifies parts, reads compiled
  ship files and orders a ship's models; `menus` holds the menus' state;
  `astroph` the sky's colors.
- `app/` is the executable around it: the window and its event loop, the
  Vulkan calls that pick a device, fill mipmaps and lay out descriptor
  sets, file input and output (font atlases, ship files, images), and the
  floating-point parts: the sky's and the galaxy's rendering and the
  viewer's map square.
- `tests/` exercises the library on concrete values.
