//! Integer side of a geospatial toolkit: hierarchical cell identifiers on the
//! sphere, with their subdivision levels and ancestor relation.
pub mod cellid;
