use metri_engine::sql_parse::cte::parse_cte_queries;
use metri_engine::sql_parse::filters::{extract_filters_from_sql, extract_left_column, FilterValue, SqlValue};
use metri_engine::sql_parse::final_expr::{
    evaluate_final_expression, final_expression_source, FinalSource, FinalValue, ResultRow, RowSets,
};
use serde_json::Value;
use metri_engine::lake::truncate_timestamp;
use metri_engine::sql_parse::time_range::extract_timestamp_range_from_sql;
use metri_engine::sql_parse::entity::{
    clean_cte_field, clean_expr_field, extract_cte_name, extract_entity_from_sql,
    extract_limit_from_sql,
};
use metri_engine::sql_parse::projection::{
    extract_arg, extract_expr_before_alias, extract_projected_columns, resolve_column_alias,
};

#[test]
fn entidad_desde_from_calificado_y_desnudo() {
    assert_eq!(
        extract_entity_from_sql("SELECT id FROM metri_olap.audit_log WHERE x = 1"),
        Some("audit_log".to_string())
    );
    assert_eq!(
        extract_entity_from_sql("SELECT id FROM audit_log LIMIT 10"),
        Some("audit_log".to_string())
    );
}

#[test]
fn sufijos_raw_y_rollup_se_recortan() {
    assert_eq!(
        extract_entity_from_sql("SELECT v FROM metri_olap.meter_reading_raw"),
        Some("meter_reading".to_string())
    );
    assert_eq!(
        extract_entity_from_sql("SELECT v FROM meter_reading_rollup"),
        Some("meter_reading".to_string())
    );
}

#[test]
fn select_anidado_no_es_entidad() {
    assert_eq!(extract_entity_from_sql("SELECT 1"), None);
}

#[test]
fn proyeccion_simple_con_alias() {
    let cols = extract_projected_columns("SELECT id AS rid, action_type FROM t");
    assert_eq!(cols.len(), 2);
    assert_eq!(cols[0].alias, "rid");
    assert_eq!(cols[0].expr, "id");
    assert!(!cols[0].is_aggregate);
    assert_eq!(cols[1].alias, "action_type");
}

#[test]
fn count_star_es_agregado() {
    let cols = extract_projected_columns("SELECT COUNT(*) AS total FROM t");
    assert_eq!(cols.len(), 1);
    assert!(cols[0].is_aggregate);
    assert_eq!(cols[0].agg_fn.as_deref(), Some("COUNT"));
    assert_eq!(cols[0].agg_field.as_deref(), Some("*"));
    assert_eq!(cols[0].alias, "total");
}

#[test]
fn sum_de_campo_con_alias() {
    let cols = extract_projected_columns("SELECT SUM(reading_value) AS suma FROM t");
    assert!(cols[0].is_aggregate);
    assert_eq!(cols[0].agg_fn.as_deref(), Some("SUM"));
    assert_eq!(cols[0].agg_field.as_deref(), Some("reading_value"));
}

#[test]
fn date_trunc_es_columna_no_agregada() {
    let cols = extract_projected_columns(
        "SELECT date_trunc('day', created_at) AS bucket, COUNT(*) AS c FROM t GROUP BY bucket",
    );
    assert_eq!(cols.len(), 2);
    assert!(!cols[0].is_aggregate);
    assert!(cols[0].expr.contains("date_trunc"));
    assert_eq!(cols[0].alias, "bucket");
    assert!(cols[1].is_aggregate);
}

#[test]
fn limit_presente_y_ausente() {
    assert_eq!(extract_limit_from_sql("SELECT x FROM t LIMIT 42"), Some(42));
    assert_eq!(extract_limit_from_sql("SELECT x FROM t"), None);
}

#[test]
fn cte_de_comparacion_se_parsea() {
    let sql = "WITH current_data AS (SELECT bucket, v FROM t WHERE x = 1), \
               prev_0 AS (SELECT bucket, v FROM t WHERE x = 2) \
               SELECT c.v, prev_0.v FROM current_data c, prev_0";
    let Some((ctes, final_select)) = parse_cte_queries(sql) else {
        panic!("debería parsear la CTE");
    };
    assert_eq!(ctes.len(), 2);
    assert!(ctes.contains_key("current_data"));
    assert!(ctes.contains_key("prev_0"));
    assert!(ctes.get("current_data").unwrap().starts_with("SELECT"));
    assert!(final_select.starts_with("SELECT"));
}

#[test]
fn sql_normal_no_es_cte() {
    assert!(parse_cte_queries("SELECT x FROM t").is_none());
}

// ── Casos propios ────────────────────────────────────────────────────────────

#[test]
fn entidad_salta_from_sin_tabla_valida() {
    // El primer FROM va seguido de una subconsulta: se sigue buscando.
    assert_eq!(
        extract_entity_from_sql("SELECT * FROM (SELECT a FROM inner_t) x"),
        Some("inner_t".to_string())
    );
    assert_eq!(
        extract_entity_from_sql("select v from db.x_rollup_raw_raw;"),
        Some("x".to_string())
    );
    // Suffixes are cut `_raw` first, then `_rollup`: a `_raw` before a
    // `_rollup` stays.
    assert_eq!(
        extract_entity_from_sql("select v from db.x_raw_raw_rollup;"),
        Some("x_raw_raw".to_string())
    );
}

#[test]
fn limit_fuera_de_rango_o_sin_digitos() {
    assert_eq!(extract_limit_from_sql("SELECT x FROM t LIMIT 99999999999"), None);
    assert_eq!(extract_limit_from_sql("SELECT x FROM t LIMIT abc"), None);
    assert_eq!(extract_limit_from_sql("select x from t limit 7 offset 3 LIMIT 5"), Some(5));
    assert_eq!(extract_limit_from_sql("LIMIT 4294967295"), Some(4294967295));
}

#[test]
fn alias_sin_as_y_expresion() {
    assert_eq!(resolve_column_alias("SUM(v) total"), "total");
    assert_eq!(extract_expr_before_alias("SUM(v) total"), "SUM(v)");
    assert_eq!(resolve_column_alias("  \"x\" AS \"y\" "), "y");
    assert_eq!(extract_expr_before_alias("date_trunc('day', ts)"), "date_trunc('day', ts)");
}

#[test]
fn argumento_de_llamada() {
    assert_eq!(extract_arg("Max( a.b )", "max"), Some("a.b".to_string()));
    assert_eq!(extract_arg("max(a", "max"), None);
    assert_eq!(extract_arg("count(f(x)) as n", "COUNT"), Some("f(x)".to_string()));
}

#[test]
fn agregado_gana_el_ultimo_y_campo_final() {
    let cols = extract_projected_columns("SELECT MAX(COUNT(t.id)) AS m FROM t");
    assert_eq!(cols[0].agg_fn.as_deref(), Some("MAX"));
    assert_eq!(cols[0].agg_field.as_deref(), Some("id"));
    assert!(extract_projected_columns("SELECT x").is_empty());
}

#[test]
fn limpieza_de_campos_y_nombres_cte() {
    assert_eq!(clean_expr_field(" \"c.v\" "), "v");
    assert_eq!(clean_cte_field("prev_0.v + 1", "prev_0."), "v");
    assert_eq!(clean_cte_field("x", "prev_0."), "x");
    assert_eq!(extract_cte_name("1 - smart_3.mean_v", "smart_"), "smart_3");
    assert_eq!(extract_cte_name("v", "smart_"), "smart_");
}

#[test]
fn cte_mal_formada_y_nombre_repetido() {
    assert!(parse_cte_queries("WITH a (SELECT 1) SELECT 2").is_none());
    assert!(parse_cte_queries("WITH a AS (SELECT 1").is_none());
    let (ctes, last) = parse_cte_queries("with a as (x), a AS (y) select z").unwrap();
    assert_eq!(ctes.len(), 1);
    assert_eq!(ctes.get("a").as_deref(), Some("y"));
    assert_eq!(last, "select z");
}

#[test]
fn left_column_is_the_last_name_before_the_operator() {
    assert_eq!(extract_left_column("WHERE t.\"status\" "), Some("status".to_string()));
    assert_eq!(extract_left_column("SELECT x FROM y WHERE db.tbl.tenant_id"), Some("tenant_id".to_string()));
    assert_eq!(extract_left_column("a AND b ( "), Some("b".to_string()));
    assert_eq!(extract_left_column("  ( ) "), None);
    assert_eq!(extract_left_column("created-at/x"), Some("created-at/x".to_string()));
}

#[test]
fn time_range_takes_bounds_of_time_columns() {
    let sql = "SELECT * FROM t WHERE timestamp >= 1700000000 AND timestamp <= 1700003600";
    assert_eq!(extract_timestamp_range_from_sql(sql), (Some(1700000000), Some(1700003600)));
    let sql = "SELECT * FROM t WHERE day >= '2024-03-01' AND day <= '2024-03-02'";
    assert_eq!(extract_timestamp_range_from_sql(sql), (Some(1709251200), Some(1709423999)));
    let sql = "SELECT * FROM t WHERE amount >= 5";
    assert_eq!(extract_timestamp_range_from_sql(sql), (None, None));
    let sql = "SELECT * FROM t WHERE created_at >= 10 AND created_at >= 5 AND created_at <= 7 AND created_at <= 9";
    assert_eq!(extract_timestamp_range_from_sql(sql), (Some(5), Some(9)));
    let sql = "SELECT * FROM t WHERE timestamp >= '123'";
    assert_eq!(extract_timestamp_range_from_sql(sql), (Some(123), None));
    let sql = "SELECT * FROM t WHERE TIMESTAMP >= 99999999999999999999 7";
    assert_eq!(extract_timestamp_range_from_sql(sql), (Some(7), None));
}

#[test]
fn rango_con_fechas_iso() {
    let (start, end) = extract_timestamp_range_from_sql(
        "SELECT x FROM t WHERE created_at >= '2026-08-01' AND created_at <= '2026-08-31'",
    );
    let s = start.expect("start");
    let e = end.expect("end");
    assert_eq!(s, 1785542400, "2026-08-01T00:00:00Z en segundos");
    assert_eq!(e, 1788220799, "2026-08-31T23:59:59Z en segundos");
}

#[test]
fn rango_con_epoch_y_columna_timestamp() {
    let (start, end) = extract_timestamp_range_from_sql(
        "SELECT x FROM t WHERE timestamp >= 1785542400 AND timestamp <= 1788220799",
    );
    assert_eq!(start, Some(1785542400));
    assert_eq!(end, Some(1788220799));
}

#[test]
fn comparaciones_sobre_columnas_no_temporales_se_ignoran() {
    let (start, end) = extract_timestamp_range_from_sql("SELECT x FROM t WHERE reading_value >= 5");
    assert_eq!(start, None);
    assert_eq!(end, None);
}

#[test]
fn truncado_a_dia_y_hora() {
    // 2026-08-01T13:45:30Z = 1785590730 s
    let ts = 1785590730;
    assert_eq!(truncate_timestamp(ts, "day"), 1785542400);
    assert_eq!(truncate_timestamp(ts, "hour"), 1785589200);
    // En milisegundos devuelve milisegundos.
    assert_eq!(truncate_timestamp(ts * 1000, "day"), 1785542400 * 1000);
}

#[test]
fn final_column_sources() {
    assert!(matches!(final_expression_source("c.v"), FinalSource::Current { field } if field == "v"));
    assert!(matches!(
        final_expression_source(" \"prev_0\".v "),
        FinalSource::Previous { cte, field } if cte == "prev_0" && field == "v"
    ));
    assert!(matches!(
        final_expression_source("smart_1.mean_x"),
        FinalSource::Smart { cte, field } if cte == "smart_1" && field == "mean_x"
    ));
    assert!(matches!(
        final_expression_source("(c.v - smart_2.mean_v) / NULLIF(smart_2.std_v, 0) AS z"),
        FinalSource::ZScore { smart } if smart == "smart_2"
    ));
    assert!(matches!(final_expression_source("z_score"), FinalSource::ZScore { smart } if smart == "smart_0"));
    assert!(matches!(final_expression_source("bucket"), FinalSource::Current { field } if field == "bucket"));
}

#[test]
fn filtro_de_igualdad_string_y_numerico() {
    let f = extract_filters_from_sql("SELECT x FROM t WHERE tenant_id = 'tnt_01' AND seq = 7");
    assert_eq!(f.get("tenant_id"), Some(&FilterValue::Equals(SqlValue::Text("tnt_01".to_string()))));
    assert_eq!(f.get("seq"), Some(&FilterValue::Equals(SqlValue::Int(7))));
}

#[test]
fn filtro_in_de_lista() {
    let f = extract_filters_from_sql("SELECT x FROM t WHERE action_type IN ('CREATE', 'DELETE')");
    match f.get("action_type") {
        Some(FilterValue::AnyOf(vals)) => {
            assert_eq!(
                vals,
                &vec![SqlValue::Text("CREATE".to_string()), SqlValue::Text("DELETE".to_string())]
            );
        }
        other => panic!("esperaba array, obtuve {other:?}"),
    }
}

#[test]
fn filtro_booleano() {
    let f = extract_filters_from_sql("SELECT x FROM t WHERE retryable = true");
    assert_eq!(f.get("retryable"), Some(&FilterValue::Equals(SqlValue::Bool(true))));
}

#[test]
fn filters_read_each_kind_of_value() {
    let f = extract_filters_from_sql(
        "SELECT x FROM t WHERE a = NULL AND b = -2.5e3 AND c = ACTIVE AND d = 1.2.3 AND t.\"e\" = FALSE",
    );
    assert_eq!(f.get("a"), Some(&FilterValue::Equals(SqlValue::Null)));
    assert_eq!(f.get("b"), Some(&FilterValue::Equals(SqlValue::Decimal("-2.5e3".to_string()))));
    assert_eq!(f.get("c"), None, "an unquoted word is no value");
    assert_eq!(f.get("d"), None);
    assert_eq!(f.get("e"), Some(&FilterValue::Equals(SqlValue::Bool(false))));
    assert_eq!(f.len(), 3);
}

#[test]
fn lists_replace_equalities_and_not_in_is_skipped() {
    let f = extract_filters_from_sql(
        "SELECT x FROM t WHERE k = 1 AND k in (2, 'x', , oops, .5) AND j NOT IN (3) AND k = 9",
    );
    // The later equality on k wins among equalities; the list is read after them.
    assert_eq!(
        f.get("k"),
        Some(&FilterValue::AnyOf(vec![
            SqlValue::Int(2),
            SqlValue::Text("x".to_string()),
            SqlValue::Decimal(".5".to_string()),
        ]))
    );
    assert_eq!(f.get("j"), None);
    assert_eq!(f.get("not"), None);
    assert_eq!(f.len(), 1);
}

#[test]
fn expresion_final_lee_current_por_indice() {
    let row: ResultRow<Value> = vec![("v".to_string(), Value::from(3))];
    let prev: RowSets<Value> = Vec::new();
    let smart: RowSets<Value> = Vec::new();
    let val = evaluate_final_expression("c.v", Some(&row), &prev, &smart, 0);
    assert_eq!(val, FinalValue::Value(&Value::from(3)));
}

#[test]
fn expresion_final_lee_prev_por_indice() {
    let prev_row: ResultRow<Value> = vec![("v".to_string(), Value::from(9))];
    let prev: RowSets<Value> = vec![("prev_0".to_string(), vec![prev_row])];
    let smart: RowSets<Value> = Vec::new();
    let val = evaluate_final_expression("prev_0.v", None, &prev, &smart, 0);
    assert_eq!(val, FinalValue::Value(&Value::from(9)));
}

#[test]
fn expresion_final_sin_dato_es_null() {
    let prev: RowSets<Value> = Vec::new();
    let smart: RowSets<Value> = Vec::new();
    let val = evaluate_final_expression("c.no_esta", None, &prev, &smart, 0);
    assert_eq!(val, FinalValue::Null);
}

#[test]
fn z_score_reads_the_value_and_its_statistics() {
    let row: ResultRow<Value> = vec![("bucket".to_string(), Value::from(1)), ("v".to_string(), Value::from(12))];
    let stats: ResultRow<Value> = vec![
        ("mean_v".to_string(), Value::from(10)),
        ("std_v".to_string(), Value::from(2)),
    ];
    let smart: RowSets<Value> = vec![("smart_1".to_string(), vec![stats])];
    let prev: RowSets<Value> = vec![("prev_0".to_string(), Vec::new())];
    let val = evaluate_final_expression("(c.v - smart_1.mean_v) / NULLIF(smart_1.std_v, 0)", Some(&row), &prev, &smart, 0);
    assert_eq!(
        val,
        FinalValue::ZScore { value: Some(&Value::from(12)), mean: Some(&Value::from(10)), std: Some(&Value::from(2)) }
    );
    assert_eq!(evaluate_final_expression("prev_0.v", Some(&row), &prev, &smart, 0), FinalValue::Null);
    assert_eq!(
        evaluate_final_expression("smart_1.std_v", None, &prev, &smart, 3),
        FinalValue::Value(&Value::from(2))
    );
}

#[test]
fn test_extract_entity_lowercases_unicode() {
    assert_eq!(extract_entity_from_sql("SELECT id FROM ÉVENTS WHERE x = 1"), Some("évents".to_string()));
}
