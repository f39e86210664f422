pub mod text;
pub mod urlencode;
pub mod double;
pub mod time;
pub mod data;
pub mod sender;
pub mod utils;
pub mod error;
pub mod client;
