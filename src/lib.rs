//! Checked conversions between raw handles received across a C boundary and
//! native values, and the inverse direction for outbound calls.
pub mod c_ptr;
pub mod c_str;
