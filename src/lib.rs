//! Search of a browser-history database: the timestamp codec, the query
//! builder and the rendering of result rows.

pub mod chrome_time;
pub mod decimal;
pub mod query_builder;
pub mod row;
pub mod browser_hist_error;
