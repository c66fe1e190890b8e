pub mod errors;
pub mod git;
pub mod listing;
pub mod path;
pub mod ticket;
pub mod util;
