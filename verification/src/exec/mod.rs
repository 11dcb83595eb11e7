//! Execution metadata: descriptor axes and schema versions, symbolic shapes,
//! validated descriptors and the autograd tape.
pub mod axes;
pub mod validated;
pub mod descriptor;
pub mod symbolic;
pub mod spelling;
pub mod tape;
