pub mod error;
pub mod while_loop;
