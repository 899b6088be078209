//! Verified core logic of the Starfarer game engine: map tiling and
//! level-of-detail decisions of cube planets, input tracking, frame
//! pacing, object identifiers, collision classification, and the integer
//! bookkeeping behind rendering, fonts and asset loading.

pub mod lepton;
pub mod planet;
pub mod terrain;
pub mod ships;
pub mod menus;
pub mod astroph;
pub mod astro;
pub mod skybox;
