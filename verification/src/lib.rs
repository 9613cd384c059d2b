//! Small symmetric random-pattern images, encoded as PNG, and the bookkeeping
//! of a batch of them: the count prompt, the hand-out of image indices to
//! workers, the pattern grid, its raster, and the file each image goes to.

pub mod decimal;
pub mod dispatch;
pub mod encode;
pub mod generate;
pub mod grid;
pub mod naming;
pub mod prompt;
pub mod raster;
pub mod trusted;
