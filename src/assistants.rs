pub mod chess;
pub mod gpt;
