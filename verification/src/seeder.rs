//! OLAP seeding: naming of delivery streams, tables and log groups, the
//! schema-to-Athena type mapping, the table DDL, and drift of a delivery
//! stream against its desired configuration.
use vstd::prelude::*;
use vstd::string::StringExecFns;
use crate::codice::{AttrType, AttributeDescriptor};
use crate::text::{chars_of, string_from_chars};

verus! {

/// `s` with every `_` turned into `-`.
pub open spec fn underscores_to_hyphens(s: Seq<char>) -> Seq<char> {
    Seq::new(s.len(), |i: int| if s[i] == '_' { '-' } else { s[i] })
}

/// Name of the delivery stream of an entity: `<prefix>-<entity>`, with the
/// entity's underscores written as hyphens.
pub fn stream_name(prefix: &str, entity: &str) -> (r: String)
    ensures
        r@ == prefix@ + "-"@ + underscores_to_hyphens(entity@),
{
    let e = chars_of(entity);
    let mut v: Vec<char> = Vec::new();
    let mut i: usize = 0;
    while i < e.len()
        invariant
            i <= e.len(),
            v@ == underscores_to_hyphens(e@).take(i as int),
        decreases e.len() - i,
    {
        if e[i] == '_' {
            v.push('-');
        } else {
            v.push(e[i]);
        }
        i = i + 1;
        assert(v@ =~= underscores_to_hyphens(e@).take(i as int));
    }
    assert(v@ =~= underscores_to_hyphens(entity@));
    let tail = string_from_chars(&v);
    let mut r = String::from_str(prefix);
    r.append("-");
    r.append(tail.as_str());
    r
}

/// Name of the table of an entity: the entity's own name.
pub fn table_name(entity: &str) -> (r: String)
    ensures
        r@ == entity@,
{
    entity.to_owned()
}

/// Log group that receives the delivery logs of a stream.
pub fn log_group(stream: &str) -> (r: String)
    ensures
        r@ == "/aws/kinesisfirehose/"@ + stream@,
{
    let mut r = String::from_str("/aws/kinesisfirehose/");
    r.append(stream);
    r
}

/// The Athena column type of a schema type: epochs are `bigint`, numbers and
/// decimals `double`, booleans `boolean`, everything else `string`.
pub open spec fn athena_type_spec(t: AttrType) -> Seq<char> {
    match t {
        AttrType::Number | AttrType::Decimal => "double"@,
        AttrType::Epoch => "bigint"@,
        AttrType::Boolean => "boolean"@,
        _ => "string"@,
    }
}

/// The Athena column type of a schema type.
pub fn athena_type(attr_type: &AttrType) -> (r: &'static str)
    ensures
        r@ == athena_type_spec(*attr_type),
{
    match attr_type {
        AttrType::Number | AttrType::Decimal => "double",
        AttrType::Epoch => "bigint",
        AttrType::Boolean => "boolean",
        AttrType::String
        | AttrType::Array
        | AttrType::Reference
        | AttrType::Uuid
        | AttrType::Bytes
        | AttrType::Enum
        | AttrType::Json
        | AttrType::Unknown(_) => "string",
    }
}

/// The pieces of `cols` joined with `sep`.
pub open spec fn join(cols: Seq<Seq<char>>, sep: Seq<char>) -> Seq<char>
    decreases cols.len(),
{
    if cols.len() == 0 {
        Seq::empty()
    } else if cols.len() == 1 {
        cols[0]
    } else {
        join(cols.drop_last(), sep) + sep + cols.last()
    }
}

/// The column lines of the DDL: the three system columns first, then one
/// line per attribute, in order.
pub open spec fn ddl_columns(attrs: Seq<AttributeDescriptor>) -> Seq<Seq<char>> {
    seq!["  id string"@, "  _tenant string"@, "  created_at bigint"@] + attrs.map_values(
        |a: AttributeDescriptor| "  "@ + a.name@ + " "@ + athena_type_spec(a.attr_type),
    )
}

/// The idempotent Iceberg DDL of an entity's table.
pub open spec fn ddl_spec(
    entity: Seq<char>,
    attrs: Seq<AttributeDescriptor>,
    database: Seq<char>,
    lake_bucket: Seq<char>,
) -> Seq<char> {
    "CREATE TABLE IF NOT EXISTS "@ + database + "."@ + entity + " (\n"@ + join(
        ddl_columns(attrs),
        ",\n"@,
    ) + ",\n)LOCATION 's3://"@ + lake_bucket + "/iceberg-data/"@ + entity
        + "/'\nTBLPROPERTIES ('table_type'='ICEBERG', 'format'='parquet', 'write_compression'='snappy')"@
}

/// Idempotent Iceberg DDL for an entity: system columns `id`, `_tenant`,
/// `created_at` first, then the attributes, with an explicit location under
/// the lake's `iceberg-data/` prefix.
pub fn build_ddl(
    entity: &str,
    attributes: &[AttributeDescriptor],
    database: &str,
    lake_bucket: &str,
) -> (r: String)
    ensures
        r@ == ddl_spec(entity@, attributes@, database@, lake_bucket@),
{
    let ghost cols = ddl_columns(attributes@);
    let mut body = String::from_str("  id string");
    body.append(",\n");
    body.append("  _tenant string");
    body.append(",\n");
    body.append("  created_at bigint");
    proof {
        let sys = seq!["  id string"@, "  _tenant string"@, "  created_at bigint"@];
        assert(cols[0] == sys[0]);
        assert(cols[1] == sys[1]);
        assert(cols[2] == sys[2]);
        assert(cols.take(1) =~= seq!["  id string"@]);
        assert(cols.take(2).drop_last() =~= cols.take(1));
        assert(cols.take(3).drop_last() =~= cols.take(2));
        assert(join(cols.take(1), ",\n"@) == cols[0]);
        assert(join(cols.take(2), ",\n"@) == cols[0] + ",\n"@ + cols[1]);
        assert(join(cols.take(3), ",\n"@) == cols[0] + ",\n"@ + cols[1] + ",\n"@ + cols[2]);
    }
    let mut i: usize = 0;
    while i < attributes.len()
        invariant
            i <= attributes.len(),
            cols == ddl_columns(attributes@),
            body@ == join(cols.take(3 + i), ",\n"@),
        decreases attributes.len() - i,
    {
        let a = &attributes[i];
        body.append(",\n");
        body.append("  ");
        body.append(a.name.as_str());
        body.append(" ");
        body.append(athena_type(&a.attr_type));
        proof {
            assert(cols.take(3 + i + 1).drop_last() =~= cols.take(3 + i));
            assert(cols[3 + i] == "  "@ + a.name@ + " "@ + athena_type_spec(a.attr_type));
        }
        i = i + 1;
    }
    assert(cols.take(3 + attributes@.len() as int) =~= cols);
    let mut r = String::from_str("CREATE TABLE IF NOT EXISTS ");
    r.append(database);
    r.append(".");
    r.append(entity);
    r.append(" (\n");
    r.append(body.as_str());
    r.append(",\n)LOCATION 's3://");
    r.append(lake_bucket);
    r.append("/iceberg-data/");
    r.append(entity);
    r.append("/'\nTBLPROPERTIES ('table_type'='ICEBERG', 'format'='parquet', 'write_compression'='snappy')");
    r
}

/// The delivery-stream settings that the seeder wants.
pub struct DesiredDestination {
    /// `s3://<lake>/iceberg-data/`, always explicit.
    pub warehouse_location: String,
    pub buffering_size_mbs: i32,
    pub buffering_interval_s: i32,
    pub retry_seconds: i32,
}

impl DesiredDestination {
    /// The settings for a lake bucket: explicit warehouse location, 64 MB /
    /// 300 s buffering, 300 s of retries.
    pub fn for_lake(lake_bucket: &str) -> (r: DesiredDestination)
        ensures
            r.warehouse_location@ == "s3://"@ + lake_bucket@ + "/iceberg-data/"@,
            r.buffering_size_mbs == 64,
            r.buffering_interval_s == 300,
            r.retry_seconds == 300,
    {
        let mut w = String::from_str("s3://");
        w.append(lake_bucket);
        w.append("/iceberg-data/");
        DesiredDestination {
            warehouse_location: w,
            buffering_size_mbs: 64,
            buffering_interval_s: 300,
            retry_seconds: 300,
        }
    }
}

/// What the live delivery stream describes, as far as drift is concerned.
#[derive(Debug, Clone, PartialEq)]
pub struct DestinationSnapshot {
    pub warehouse_location: Option<String>,
    pub logging_enabled: bool,
    pub buffering_size_mbs: i32,
    pub buffering_interval_s: i32,
    pub retry_seconds: i32,
}

/// Drift verdict of a delivery stream.
#[derive(Debug, Clone, Copy, PartialEq, Eq, Structural)]
pub enum StreamDrift {
    /// Nothing to do.
    UpToDate,
    /// Fields that can be updated in place.
    NeedsUpdate { logging: bool, buffering: bool, retry: bool },
    /// The warehouse location is missing and cannot be updated: the stream
    /// has to be recreated.
    RecreateRequired,
}

/// The drift between a live stream and the desired settings.
pub open spec fn drift_spec(current: DestinationSnapshot, desired: DesiredDestination) -> StreamDrift {
    if current.warehouse_location is None {
        StreamDrift::RecreateRequired
    } else {
        let logging = !current.logging_enabled;
        let buffering = current.buffering_size_mbs != desired.buffering_size_mbs
            || current.buffering_interval_s != desired.buffering_interval_s;
        let retry = current.retry_seconds != desired.retry_seconds;
        if logging || buffering || retry {
            StreamDrift::NeedsUpdate { logging, buffering, retry }
        } else {
            StreamDrift::UpToDate
        }
    }
}

/// Evaluates the drift of a live stream: a missing warehouse location requires
/// recreation whatever else holds; otherwise logging off, a buffering
/// difference or a retry difference each need an update; else nothing.
pub fn evaluate_drift(current: &DestinationSnapshot, desired: &DesiredDestination) -> (r: StreamDrift)
    ensures
        r == drift_spec(*current, *desired),
{
    if current.warehouse_location.is_none() {
        return StreamDrift::RecreateRequired;
    }
    let logging = !current.logging_enabled;
    let buffering = current.buffering_size_mbs != desired.buffering_size_mbs
        || current.buffering_interval_s != desired.buffering_interval_s;
    let retry = current.retry_seconds != desired.retry_seconds;
    if logging || buffering || retry {
        StreamDrift::NeedsUpdate { logging, buffering, retry }
    } else {
        StreamDrift::UpToDate
    }
}

/// A stream brought to the desired settings shows no drift: running the
/// seeder again changes nothing.
pub proof fn lemma_drift_idempotent(current: DestinationSnapshot, desired: DesiredDestination)
    requires
        current.warehouse_location is Some,
        current.logging_enabled,
        current.buffering_size_mbs == desired.buffering_size_mbs,
        current.buffering_interval_s == desired.buffering_interval_s,
        current.retry_seconds == desired.retry_seconds,
    ensures
        drift_spec(current, desired) == StreamDrift::UpToDate,
{
}

/// A stream without warehouse location always needs recreation, whatever its
/// other settings.
pub proof fn lemma_missing_warehouse_forces_recreation(
    current: DestinationSnapshot,
    desired: DesiredDestination,
)
    requires
        current.warehouse_location is None,
    ensures
        drift_spec(current, desired) == StreamDrift::RecreateRequired,
{
}

} // verus!
