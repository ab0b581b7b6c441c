pub mod compute;
pub mod convert;
