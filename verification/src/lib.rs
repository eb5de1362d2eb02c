//! Integer core of a 2D light-and-shadow game: the triangle-fan meshes that
//! light polygons are drawn with, the cache that decides when a light polygon
//! has to be traced again, colour palettes and the read-back of compute
//! results.

pub mod polygon;
pub mod light_cache;
pub mod compute;
pub mod palette;
