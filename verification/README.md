# bevy_neosprite

2D sprite-atlas animation, material and point-light logic for a Bevy renderer.

- `src/` is the verified library: which grid cell an animation frame occupies, which sprites
  need their atlas's material or a new UV range, how point lights fill the lights uniform,
  the material uniform's flag bits, and which images a material file asks for.
- `app/` is the Bevy plugin: asset types with their serde and engine derives, the asset
  loaders, the ECS systems that gather plain values for the library and write its results
  back, and the floating-point color and UV arithmetic.
- `tests/` exercises the library on concrete values.
