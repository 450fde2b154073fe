pub mod error;

pub use error::{MaccyError, Result};
