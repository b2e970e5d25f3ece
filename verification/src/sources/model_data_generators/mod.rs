//! Sources whose data come from a model.

pub mod building_hierarchy;
pub mod building_hierarchy_laws;
pub mod change_event_laws;
pub mod change_stream;
pub mod change_stream_laws;
pub mod generator_driver;
pub mod generator_driver_laws;
pub mod graph_elements;
pub mod stock_trades;
pub mod stock_trades_laws;
