pub mod html;
pub mod parser;
