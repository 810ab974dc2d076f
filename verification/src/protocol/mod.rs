pub mod codec;
pub mod messages;
pub mod stream;
