# tama

A pixel-art cat that lives on a round 240×240 GC9A01 display driven by a
XIAO nRF54L15. Three buttons feed, pet and play with it; left alone it idles,
cleans itself, naps and wanders through a bedroom, a kitchen and a bathroom.

## Layout

- `src/` is the library, written in Verus and verified: every function carries
  a `requires`/`ensures` contract that Verus proves.
  - `encode`, `raster`, `cat_sheet`, `themes`, `props`: the asset pipeline —
    from the bytes of a PNG file to RGBA8 images, their RGB565 encoding (with
    `0x07E0` as the transparency sentinel), cutting animation frames, stacking
    wall tiles, trimming props. PNG decoding, cropping and alpha compositing are
    done by the `image` crate behind wrappers whose contracts state what it does.
  - `fb`: the big-endian framebuffer, its fill and its scaled, clipped,
    optionally mirrored blitter.
  - `cat`, `time`, `sprites`: the cat's state machine, timed in ticks of the
    `embassy_time` clock, and the animation table.
  - `world`, `firmware::world`, `scene`: the rooms, their rendering, the camera
    and the composition of a frame.
  - `input`, `display`: the button debouncer as a state machine, and the panel's
    address-window commands.
- `tests/` exercises the library on concrete values.
- `app/` is the program around it. Built for the board it is the firmware
  (peripherals, the button tasks, the game loop); built for the host it is the
  asset tool that turns the PNG art into the sprite tables the firmware is
  compiled with; it only reads the files and writes the tables out.
