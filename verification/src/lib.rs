pub mod bytes;
pub mod context;
pub mod crypto;
pub mod dispatch;
pub mod environmental;
pub mod errors;
pub mod laws;
pub mod machine;
pub mod state;
pub mod word;
