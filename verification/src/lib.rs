//! Share-code lookup and access decisions of a small paste / file / link sharing service.

pub mod text;
pub mod share_code;
pub mod animals;
pub mod hashids;
pub mod crypto;
pub mod pasta;
pub mod access;
pub mod owner;
pub mod removal;
