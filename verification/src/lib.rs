//! tama: a pixel-art cat on a round 240×240 RGB565 display.
//!
//! The library holds the logic of the game and of its asset pipeline:
//! colour encoding, the framebuffer and its scaled blitter, the cat's
//! behaviour, the world of rooms, the button debouncer and the screen layout.
//! Everything that talks to hardware or to the file system lives around it.

pub mod cat;
pub mod cat_sheet;
pub mod display;
pub mod encode;
pub mod sprites;
pub mod themes;
pub mod time;
pub mod world;
pub mod fb;
pub mod firmware;
pub mod input;
pub mod props;
pub mod scene;
pub mod raster;
