pub mod http;
pub mod integrated;
pub mod json;
