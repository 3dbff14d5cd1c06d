pub mod entry;
pub mod palindrome;
pub mod render;
pub mod strutil;
pub mod temperature;
pub mod text;
pub mod words;
