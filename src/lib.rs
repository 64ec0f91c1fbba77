//! A toroidal grid of multi-channel cells whose next generation is computed
//! from each site's 3x3 neighbourhood: two Sobel gradients per channel, handed
//! with the site's own cell to an update rule chosen by the caller.

pub mod cell;
pub mod masks;
pub mod grid;
pub mod theorems;
pub mod image;

pub use cell::{Cell, Gradient, ONE};
pub use grid::{CellularGrid, GridError};
pub use image::{ImageLoadError, RgbaImage, get_image, get_image_of_cells};
