//! Geography of the game board: provinces, regions, borders and the map that joins them.
pub mod border;
pub(crate) mod map;
pub mod province;
pub(crate) mod region;
pub mod standard;

pub use self::border::Border;
pub use self::map::{MapView, WorldMap};
pub use self::province::{Province, SupplyCenter};
pub use self::region::{
    coast_suffix, region_short_name, Coast, ProvinceKey, Region, RegionKey, RegionName, Terrain,
};
pub use self::standard::standard_map;
