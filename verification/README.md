# light_game

A 2D game of lights and shadows. Lights trace polygons around the platforms
of the level, the player's light runs and jumps, and the mouse shoots new
lights. It is drawn with Vulkan through bevy and vulkano.

- `src/` is the verified library (Verus): the triangle-fan meshes that light
  polygons are drawn with (`polygon`), the cache that decides when a light's
  polygon has to be traced again (`light_cache`), colour palettes
  (`palette`) and the read-back of the compute shader's pixel buffer
  (`compute`).
- `app/` is the game itself: the bevy plugins and systems, the GPU passes,
  and the floating-point geometry of rays, circles and boxes.
- `tests/` exercises the library on concrete values.
