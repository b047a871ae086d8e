//! Reading the blocks of ASAM MDF measurement files (versions 3 and 4).
pub mod utils;
pub mod record;
pub mod mdf4;
pub mod mdf3;
pub mod mdf;
pub mod signal;
