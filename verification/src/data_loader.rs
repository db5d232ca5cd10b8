//! The configuration model of the downstream analytical loader that ingests
//! the normalized artifacts. The engine itself never reads these values;
//! they describe the collaborator that picks the artifacts up.

use vstd::prelude::*;

verus! {

/// One remote data source the downstream loader ingests into its analytical
/// store.
#[derive(Debug, Clone, PartialEq)]
pub struct DataSourceConfiguration {
    pub table_name: String,
    pub container_id: u64,
    pub data_source_id: u64,
    pub timestamp_column_name: String,
    pub secondary_index: Option<String>,
    pub initial_timestamp: Option<String>,
    pub initial_index_start: Option<u64>,
}

/// The downstream loader's full configuration.
#[derive(Debug, Clone, PartialEq)]
pub struct Configuration {
    pub api_key: Option<String>,
    pub api_secret: Option<String>,
    pub deep_lynx_url: String,
    pub db_path: String,
    pub period_interval: u64,
    pub data_retention_days: u32,
    pub target_data_source_id: Option<u64>,
    pub linear_notebook_path: Option<String>,
    pub anomaly_notebook_path: Option<String>,
    pub neutronics_notebook_path: Option<String>,
    pub target_container_id: Option<u64>,
    pub debug: Option<bool>,
    pub data_sources: Vec<DataSourceConfiguration>,
}

/// The starting point, per analytical table, from which the downstream
/// notebooks run: the experiment start time and the last-seen sequence
/// counter of each table.
#[derive(Debug, Clone)]
pub struct Timestamps {
    pub experiment_start_time: String,
    pub temp_time: u64,
    pub eng_time: u64,
    pub ch3_time: u64,
}

/// The downstream analytical loader, parameterized by its configuration.
#[derive(Debug, Clone)]
pub struct DataLoader {
    pub config: Configuration,
}

impl DataLoader {
    /// A loader over the given configuration.
    pub fn new(config: Configuration) -> (r: DataLoader)
        ensures
            r.config == config,
    {
        DataLoader { config }
    }
}

} // verus!
