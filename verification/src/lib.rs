pub mod shared;
pub mod user;
pub mod boot;
pub mod kernel;
