pub mod problems;
pub mod submissions;
pub mod users;
