use isu_processor::data_loader::Configuration;
use isu_processor::data_loader::DataLoader;
use isu_processor::data_loader::DataSourceConfiguration;
use isu_processor::data_loader::Timestamps;

#[test]
fn data_loader_holds_its_configuration() {
    let source = DataSourceConfiguration {
        table_name: "temperature".to_string(),
        container_id: 1,
        data_source_id: 7,
        timestamp_column_name: "date_time".to_string(),
        secondary_index: Some("time".to_string()),
        initial_timestamp: None,
        initial_index_start: Some(0),
    };
    let config = Configuration {
        api_key: None,
        api_secret: None,
        deep_lynx_url: "http://localhost".to_string(),
        db_path: "./analytics.db".to_string(),
        period_interval: 60,
        data_retention_days: 30,
        target_data_source_id: None,
        linear_notebook_path: None,
        anomaly_notebook_path: None,
        neutronics_notebook_path: None,
        target_container_id: None,
        debug: None,
        data_sources: vec![source],
    };
    let loader = DataLoader::new(config.clone());
    assert_eq!(loader.config, config);
    assert_eq!(loader.config.data_sources[0].table_name, "temperature");
}

#[test]
fn timestamps_carry_per_table_counters() {
    let t = Timestamps {
        experiment_start_time: "2023-02-13 14:29:00".to_string(),
        temp_time: 3,
        eng_time: 5,
        ch3_time: 0,
    };
    let copy = t.clone();
    assert_eq!(copy.experiment_start_time, t.experiment_start_time);
    assert_eq!(copy.eng_time, 5);
}
