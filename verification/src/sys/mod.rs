pub mod unix;
pub mod windows;
