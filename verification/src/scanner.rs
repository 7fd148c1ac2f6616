pub mod pattern;
pub mod scan;
