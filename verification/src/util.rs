pub mod null_check;
pub mod patch;
pub mod section;
pub mod singleton;
