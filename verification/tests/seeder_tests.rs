use metri_engine::codice::{AttrType, AttributeDescriptor};
use metri_engine::seeder::{
    athena_type, build_ddl, evaluate_drift, log_group, stream_name, table_name, DesiredDestination,
    DestinationSnapshot, StreamDrift,
};

fn attr(name: &str, attr_type: AttrType) -> AttributeDescriptor {
    AttributeDescriptor {
        name: name.to_string(),
        attr_type,
        required: false,
        indexed: false,
        sensitive: false,
    }
}

#[test]
fn el_naming_coincide_con_olap_channel() {
    assert_eq!(
        stream_name("metri-olap-stream", "audit_log"),
        "metri-olap-stream-audit-log"
    );
    assert_eq!(table_name("audit_log"), "audit_log");
    assert_eq!(
        log_group("metri-olap-stream-domain-fault"),
        "/aws/kinesisfirehose/metri-olap-stream-domain-fault"
    );
}

#[test]
fn mapeo_de_tipos_codice_a_athena() {
    assert_eq!(athena_type(&AttrType::Epoch), "bigint");
    assert_eq!(athena_type(&AttrType::Decimal), "double");
    assert_eq!(athena_type(&AttrType::Number), "double");
    assert_eq!(athena_type(&AttrType::Boolean), "boolean");
    assert_eq!(athena_type(&AttrType::Json), "string");
    assert_eq!(athena_type(&AttrType::Reference), "string");
}

#[test]
fn ddl_con_columnas_de_sistema_primero_y_warehouse_explcito() {
    let attrs = vec![
        attr("tenant_id", AttrType::Reference),
        attr("retryable", AttrType::Boolean),
        attr("occurred_at", AttrType::Epoch),
        attr("reading_value", AttrType::Decimal),
    ];
    let ddl = build_ddl("domain_fault", &attrs, "metri_olap", "mi-lake");
    assert!(ddl.starts_with("CREATE TABLE IF NOT EXISTS metri_olap.domain_fault"));
    assert!(ddl.contains("  id string,\n  _tenant string,\n  created_at bigint,"));
    assert!(ddl.contains(
        "  tenant_id string,\n  retryable boolean,\n  occurred_at bigint,\n  reading_value double"
    ));
    assert!(ddl.contains("LOCATION 's3://mi-lake/iceberg-data/domain_fault/'"));
    assert!(ddl.contains("'table_type'='ICEBERG'"));
}

#[test]
fn warehouse_ausente_exige_recreacion_y_el_resto_es_actualizable() {
    let desired = DesiredDestination::for_lake("lake");
    let sin_warehouse = DestinationSnapshot {
        warehouse_location: None,
        logging_enabled: true,
        buffering_size_mbs: 64,
        buffering_interval_s: 300,
        retry_seconds: 300,
    };
    assert_eq!(
        evaluate_drift(&sin_warehouse, &desired),
        StreamDrift::RecreateRequired
    );
    let logging_off = DestinationSnapshot {
        warehouse_location: Some("s3://lake/iceberg-data/".into()),
        logging_enabled: false,
        buffering_size_mbs: 64,
        buffering_interval_s: 300,
        retry_seconds: 300,
    };
    assert_eq!(
        evaluate_drift(&logging_off, &desired),
        StreamDrift::NeedsUpdate {
            logging: true,
            buffering: false,
            retry: false
        }
    );
    let ok = DestinationSnapshot {
        warehouse_location: Some("s3://lake/iceberg-data/".into()),
        logging_enabled: true,
        buffering_size_mbs: 64,
        buffering_interval_s: 300,
        retry_seconds: 300,
    };
    assert_eq!(evaluate_drift(&ok, &desired), StreamDrift::UpToDate);
}

#[test]
fn desired_destination_points_at_the_lake() {
    let desired = DesiredDestination::for_lake("lake");
    assert_eq!(desired.warehouse_location, "s3://lake/iceberg-data/");
    assert_eq!(desired.buffering_size_mbs, 64);
    assert_eq!(desired.buffering_interval_s, 300);
    assert_eq!(desired.retry_seconds, 300);
}

#[test]
fn drift_flags_each_divergent_group() {
    let desired = DesiredDestination::for_lake("lake");
    let all_off = DestinationSnapshot {
        warehouse_location: Some("s3://other/".into()),
        logging_enabled: false,
        buffering_size_mbs: 5,
        buffering_interval_s: 300,
        retry_seconds: 60,
    };
    assert_eq!(
        evaluate_drift(&all_off, &desired),
        StreamDrift::NeedsUpdate {
            logging: true,
            buffering: true,
            retry: true
        }
    );
}

#[test]
fn stream_name_turns_every_underscore_into_a_hyphen() {
    assert_eq!(stream_name("p", "a_b_c"), "p-a-b-c");
    assert_eq!(stream_name("p", ""), "p-");
    assert_eq!(athena_type(&AttrType::Array), "string");
}

#[test]
fn ddl_without_attributes_keeps_the_system_columns() {
    let ddl = build_ddl("e", &[], "db", "b");
    assert!(ddl.starts_with("CREATE TABLE IF NOT EXISTS db.e (\n  id string,\n  _tenant string,\n  created_at bigint"));
    assert!(ddl.contains("LOCATION 's3://b/iceberg-data/e/'"));
}
