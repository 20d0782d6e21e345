//! Terrain elevation tiles: a bounded in-memory tile cache over an on-disk
//! store, a point-elevation sampler, and a heightmap rasterizer.

mod decimal;
mod elevation;
mod errors;
mod fetcher;
mod geodesy;
mod heightmap;
mod limiter;
mod map_tile;
mod negative_cache;
mod png_codec;
mod positioning;
mod prefetcher;
mod quarter;
mod tile_identity;
mod tile_signature;
mod tile_storage;
mod utils;

pub use decimal::dec_digits;
pub use decimal::dec_int;
pub use elevation::elevation_at;
pub use elevation::spec_pixel_column;
pub use elevation::spec_pixel_row;
pub use elevation::spec_sample;
pub use errors::Error;
pub use fetcher::DownloadOutcome;
pub use fetcher::TileFetcher;
pub use geodesy::cos_deg;
pub use geodesy::cos_udeg;
pub use geodesy::meridian_distance;
pub use geodesy::move_horizontal;
pub use geodesy::move_vertical;
pub use geodesy::parallel_distance;
pub use geodesy::spec_meridian_distance;
pub use geodesy::spec_parallel_distance;
pub use geodesy::METERS_PER_DEGREE;
pub use heightmap::convert_georectangle;
pub use heightmap::lemma_render_deterministic;
pub use heightmap::lemma_uniform_render_is_black;
pub use heightmap::spec_covers;
pub use heightmap::spec_grid_height;
pub use heightmap::spec_grid_lat;
pub use heightmap::spec_grid_lon;
pub use heightmap::spec_grid_sig;
pub use heightmap::spec_rect_height_m;
pub use heightmap::spec_rect_width_m;
pub use heightmap::sidecar_json;
pub use heightmap::spec_gray;
pub use heightmap::spec_max_fold;
pub use heightmap::spec_min_fold;
pub use heightmap::spec_normalize;
pub use heightmap::spec_sidecar;
pub use heightmap::ImageFormat;
pub use heightmap::RenderOutput;
pub use heightmap::Resolution;
pub use limiter::MemoryLimiter;
pub use limiter::TileLimiter;
pub use map_tile::MapTile;
pub use negative_cache::NegativeCache;
pub use png_codec::png_gray_bytes;
pub use positioning::clip_latitude;
pub use positioning::clip_longitude;
pub use positioning::is_valid_latitude;
pub use positioning::is_valid_longitude;
pub use positioning::ExtendMode;
pub use positioning::GeoCoordinate;
pub use positioning::GeoCoordinateType;
pub use positioning::GeoRectangle;
pub use prefetcher::lemma_prefetch_idempotent;
pub use prefetcher::pending_list;
pub use prefetcher::ElevationPrefetcher;
pub use quarter::Quarter;
pub use tile_identity::TileIdentity;
pub use tile_signature::lemma_from_floor_round_trip;
pub use tile_signature::TileSignature;
pub use tile_signature::MICRO;
pub use tile_storage::lemma_load_idempotent;
pub use tile_storage::lemma_store_bounded;
pub use tile_storage::lemma_negative_is_permanent;
pub use tile_storage::load_contract;
pub use tile_storage::TileStorage;
pub use utils::replace_extension;
pub use utils::spec_snap;
pub use utils::validate_coordinate;
pub use utils::SNAP_THRESHOLD;
