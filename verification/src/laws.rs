//! What holds of the library as a whole.

pub mod lists;
pub mod places;
pub mod replies;
pub mod scanning;
pub mod statements;
pub mod tables;
pub mod texts;
