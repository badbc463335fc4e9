pub mod locate;
pub mod model;
pub mod names;
pub mod strings;
pub mod variant;
