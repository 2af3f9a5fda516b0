//! Move validation.

pub mod validator;
