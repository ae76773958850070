//! What the user's input asks the program to do.
pub mod general;
