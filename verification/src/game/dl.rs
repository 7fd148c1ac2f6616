pub mod mutex;
pub mod string;

pub use mutex::DLPlainLightMutex;
pub use string::DLWString;
