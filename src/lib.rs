//! Text-mode display substrate: a shadow buffer mirroring a character
//! display device, the cursor-tracked and position-addressed writers that
//! keep both consistent, and the bulk redraw and frame-blit paths.
pub mod io;
pub mod theorems;
pub mod game;
