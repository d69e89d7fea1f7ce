//! Fetches every comment and reply of a video from a paginated comment API,
//! flattens them into fixed-column rows and lays them out as delimited text.

pub mod text;
pub mod resolve;
pub mod model;
pub mod fetch;
pub mod table;
pub mod scrape;
