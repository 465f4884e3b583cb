pub mod text;
pub mod storage_keys;
pub mod contract;
pub mod sharding;
pub mod parent;
pub mod child;
pub mod datetime;
pub mod tiles;
pub mod presets;
pub mod timing;
pub mod tasks;
pub mod scenario;
pub mod points;
pub mod dimension_values;
pub mod adapters;
pub mod preset_panel;
pub mod export;
pub mod runtime;
pub mod sampling;
pub mod tile_state;
pub mod grid;
pub mod scenario_settings;
pub mod tile_cover;
pub mod trips;
pub mod record_columns;
