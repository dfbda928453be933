pub mod collect;
pub mod error;
pub mod locate;
pub mod pattern;
pub mod resolve;
pub mod scan;
pub mod walk;
