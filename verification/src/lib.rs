//! Planning of crop placement on a farm grid: which crop combinations to
//! plant with the seeds at hand, and how the planted farm is drawn.

pub mod allocate;
pub mod art;
pub mod catalog;
pub mod compose;
pub mod error;
pub mod grid;
pub mod layout;
pub mod plant;
pub mod planting;
pub mod prompts;
pub mod seeds;
pub mod summary;
