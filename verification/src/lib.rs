//! A verified catalogue builder for a paginated programme-listing service.
//!
//! The library decodes listing pages into plain data, classifies each item
//! on a page as a terminal programme record or a pointer to a further page,
//! drives a traversal that visits every reachable page exactly once, and
//! assembles the collected records into a globally indexed catalogue.

pub mod db;
pub mod engine;
pub mod html;
pub mod model;
pub mod page;
pub mod retry;
pub mod selection;
pub mod text;
