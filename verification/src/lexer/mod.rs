pub mod scan;
pub mod token;
