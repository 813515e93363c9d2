//! Word lookup across several dictionary-like documents: extraction from each
//! document into one schema, text reconstruction under a tag policy, origin
//! stitching, a content restrictor, and the aggregation and cache decisions of
//! a lookup.
pub mod aggregate;
pub mod dom;
pub mod etym;
pub mod lookup;
pub mod macmillan;
pub mod model;
pub mod pages;
pub mod render;
pub mod restrict;
pub mod stock;
pub mod stitch;
pub mod text;
pub mod timestamp;
pub mod vocab;
pub mod wiki;
