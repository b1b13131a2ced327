//! Descriptions of data sources and sinks: how their bytes are encoded and
//! which metadata accompanies them.
//!
//! These are plain data definitions consumed by the layers that plan and run
//! dataflows; the few methods they carry are specified exactly.

use vstd::prelude::*;

verus! {

/// Encoding of Avro object container files.
#[derive(Clone, Debug, Eq, PartialEq)]
pub struct AvroOcfEncoding {
    pub reader_schema: String,
}

/// Encoding in Protobuf format.
#[derive(Clone, Debug, Eq, PartialEq)]
pub struct ProtobufEncoding {
    pub descriptors: Vec<u8>,
    pub message_name: String,
    pub confluent_wire_format: bool,
}

/// Arguments necessary to define how to decode from CSV format.
#[derive(Clone, Debug, Eq, PartialEq)]
pub struct CsvEncoding {
    pub columns: ColumnSpec,
    pub delimiter: u8,
}

/// How the columns of a CSV source are determined.
#[derive(Clone, Debug, Eq, PartialEq)]
pub enum ColumnSpec {
    /// The first row is not a header row, and all columns get default names.
    Count(usize),
    /// The first row is a header row; each of the values in `names` becomes
    /// the default name of a column in the dataflow.
    Header { names: Vec<String> },
}

impl ColumnSpec {
    /// The number of columns described by the column spec.
    pub open spec fn spec_arity(self) -> nat {
        match self {
            ColumnSpec::Count(n) => n as nat,
            ColumnSpec::Header { names } => names@.len(),
        }
    }

    /// The number of columns described by the column spec.
    pub fn arity(&self) -> (r: usize)
        ensures
            r == self.spec_arity(),
    {
        match self {
            ColumnSpec::Count(n) => *n,
            ColumnSpec::Header { names } => names.len(),
        }
    }

    /// The header names, for the spec that carries them.
    pub fn into_header_names(self) -> (r: Option<Vec<String>>)
        ensures
            match self {
                ColumnSpec::Count(_) => r is None,
                ColumnSpec::Header { names } => r == Some(names),
            },
    {
        match self {
            ColumnSpec::Count(_) => None,
            ColumnSpec::Header { names } => Some(names),
        }
    }
}

/// Whether and how to persist the envelope of a persisted source.
#[derive(Clone, Debug, Eq, PartialEq)]
pub enum EnvelopePersistDesc {
    Upsert,
    Plain,
}

/// Universal language for describing message positions, in a
/// source-independent way. Individual sources like Kafka or file sources
/// have their own offset types that convert to and from this one. An
/// `MzOffset` of 0 denotes an empty stream.
#[derive(Copy, Clone, Default, Debug, PartialEq, PartialOrd, Eq, Ord, Hash, Structural)]
pub struct MzOffset {
    pub offset: i64,
}

/// A Kafka partition offset, 0-indexed where [`MzOffset`] is 1-indexed.
#[derive(Clone, Copy, Eq, PartialEq, Structural)]
pub struct KafkaOffset {
    pub offset: i64,
}

/// Which piece of metadata a column corresponds to.
#[derive(Copy, Clone, Debug, Eq, PartialEq, Structural)]
pub enum IncludedColumnSource {
    /// A source-specific default position column; legacy, to be removed when
    /// default metadata is no longer included.
    DefaultPosition,
    Partition,
    Offset,
    Timestamp,
    Topic,
    Headers,
}

/// Whether and how to include the decoded key of a stream in dataflows.
#[derive(Clone, Debug, Eq, PartialEq)]
pub enum KeyEnvelope {
    /// Never include the key in the output row.
    Omitted,
    /// For composite key encodings, pull the fields from the encoding into
    /// columns.
    Flattened,
    /// Identical to `Flattened` except for sources whose key names are
    /// overwritten.
    LegacyUpsert,
    /// Always use the given name for the key: a single-field key becomes a
    /// column of that name, a multi-column key a record of that name.
    Named(String),
}

/// A column that was created via an `INCLUDE` expression.
#[derive(Clone, Debug, Eq, PartialEq)]
pub struct IncludedColumnPos {
    pub name: String,
    pub pos: usize,
}

/// The meaning of the timestamp number produced by a data source, not the
/// timestamp's origin: two sources are comparable only within one timeline.
#[derive(Clone, Debug, Ord, PartialOrd, Eq, PartialEq, Hash)]
pub enum Timeline {
    /// The timestamp is milliseconds since the Unix epoch.
    EpochMilliseconds,
    /// The timestamp comes from an external source whose meaning is unknown;
    /// the attached name makes different sources incomparable.
    External(String),
    /// The user chose the timeline; sources with the same user string are
    /// deliberately joinable.
    User(String),
}

/// An upsert envelope together with the key columns it deduplicates by.
#[derive(Clone, Debug, Eq, PartialEq)]
pub struct UpsertEnvelope {
    /// What style of upsert is in use.
    pub style: UpsertStyle,
    /// The indices of the keys in the full value row, used to deduplicate
    /// data.
    pub key_indices: Vec<usize>,
}

/// The style of an upsert envelope.
#[derive(Clone, Debug, Eq, PartialEq)]
pub enum UpsertStyle {
    /// `ENVELOPE UPSERT`, where the key shape depends on the independent
    /// [`KeyEnvelope`].
    Default(KeyEnvelope),
    /// `ENVELOPE DEBEZIUM UPSERT`.
    Debezium { after_idx: usize },
}

/// The record indices, calculated during planning, at which a Debezium
/// message carries its source and transaction metadata.
#[derive(Clone, Debug, Eq, PartialEq)]
pub struct DebeziumDedupProjection {
    /// The column index containing the Debezium source metadata.
    pub source_idx: usize,
    /// The record index of the `source.snapshot` field.
    pub snapshot_idx: usize,
    /// The upstream-database-specific fields.
    pub source_projection: DebeziumSourceProjection,
    /// The column index containing the Debezium transaction metadata.
    pub transaction_idx: usize,
    /// The record index of the `transaction.total_order` field.
    pub total_order_idx: usize,
}

/// The structure of the upstream-database metadata in a Debezium record,
/// which depends on the connector that produced it.
#[derive(Clone, Debug, Eq, PartialEq)]
pub enum DebeziumSourceProjection {
    MySql { file: usize, pos: usize, row: usize },
    Postgres { sequence: Option<usize>, lsn: usize },
    SqlServer { change_lsn: usize, event_serial_no: usize },
}

/// The compression applied to a source's raw bytes.
#[derive(Clone, Debug, Eq, PartialEq, Structural)]
pub enum Compression {
    Gzip,
    Uncompressed,
}

/// A PubNub channel to subscribe to.
#[derive(Clone, Debug, Eq, PartialEq)]
pub struct PubNubSourceConnector {
    pub subscribe_key: String,
    pub channel: String,
}

/// A source of object key names, the argument of a `DISCOVER OBJECTS`
/// clause.
#[derive(Debug, Clone, PartialEq, Eq, Hash)]
pub enum S3KeySource {
    /// Scan the bucket to discover keys to download.
    Scan { bucket: String },
    /// Load object keys from an S3 notifications queue.
    SqsNotifications { queue: String },
}

/// Credentials for a cloud-storage source or sink, or where to find them.
#[derive(Clone, Debug, Eq, PartialEq)]
pub enum AwsCredentials {
    /// Look for credentials using the default credentials chain.
    Default,
    /// Load credentials using the given named profile.
    Profile { profile_name: String },
    /// Use the enclosed static credentials.
    Static { access_key_id: String, secret_access_key: String, session_token: Option<String> },
}

/// A role to assume when performing cloud API calls.
#[derive(Clone, Debug, Eq, PartialEq)]
pub struct AwsAssumeRole {
    /// The name of the role to assume.
    pub arn: String,
}

/// An external ID to use for all assume-role operations.
///
/// For security this ID must never be chosen by untrusted users: it is only
/// ever set from an operator-controlled command line or environment.
#[derive(Clone, Debug, Eq, PartialEq)]
pub enum AwsExternalId {
    NotProvided,
    ISwearThisCameFromACliArgOrEnvVariable(String),
}

impl Default for AwsExternalId {
    fn default() -> (r: AwsExternalId)
        ensures
            r == AwsExternalId::NotProvided,
    {
        AwsExternalId::NotProvided
    }
}

impl AwsExternalId {
    /// The external ID, if one was provided.
    pub fn get(&self) -> (r: Option<&str>)
        ensures
            match self {
                AwsExternalId::NotProvided => r is None,
                AwsExternalId::ISwearThisCameFromACliArgOrEnvVariable(v) => match r {
                    Some(s) => s@ == v@,
                    None => false,
                },
            },
    {
        match self {
            AwsExternalId::NotProvided => None,
            AwsExternalId::ISwearThisCameFromACliArgOrEnvVariable(v) => Some(v.as_str()),
        }
    }
}

/// The envelope a sink writes its records in.
#[derive(Copy, Clone, Debug, Eq, PartialEq, Structural)]
pub enum SinkEnvelope {
    Debezium,
    Upsert,
}

/// The topic and schema under which a Kafka sink publishes its consistency
/// information.
#[derive(Clone, Debug, Eq, PartialEq)]
pub struct KafkaSinkConsistencyConnector {
    pub topic: String,
    pub schema_id: i32,
}

/// The schema ids under which a sink's key and value schemas were published.
#[derive(Clone, Debug, Eq, PartialEq)]
pub struct PublishedSchemaInfo {
    pub key_schema_id: Option<i32>,
    pub value_schema_id: i32,
}

/// A sink that tails a relation into the client, carrying no configuration.
#[derive(Default, Clone, Debug, PartialEq, Eq, Structural)]
pub struct TailSinkConnector {}

} // verus!
