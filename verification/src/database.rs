//! The table that live proxies are kept in, and the settings of the connection to it.

use crate::proxy::ProxyData;
use crate::text;
use vstd::prelude::*;

verus! {

/// The columns of the primary key, in order.
pub const EXPECTED_PROXIES_PRIMARY_KEY: [&'static str; 2] = ["ip", "port"];

/// Name, type and nullability of each column, in order.
pub const EXPECTED_PROXIES_COLUMNS: [(&'static str, &'static str, bool); 9] = [
    ("ip", "text", false),
    ("port", "integer", false),
    ("country_code", "text", true),
    ("country_name", "text", true),
    ("city_code", "text", true),
    ("city_name", "text", true),
    ("asn_number", "text", true),
    ("org_name", "text", true),
    ("updated_at", "timestamp with time zone", false),
];

/// Asks whether the table exists.
pub const TABLE_EXISTS_SQL: &'static str = "SELECT EXISTS (
    SELECT FROM information_schema.tables
    WHERE table_name = 'proxies'
)";

/// Asks for name, type and nullability of each column.
pub const COLUMNS_SQL: &'static str = "SELECT column_name, data_type, is_nullable
FROM information_schema.columns
WHERE table_name = 'proxies'
ORDER BY ordinal_position";

/// Asks for the columns of the primary key.
pub const PRIMARY_KEY_SQL: &'static str = "SELECT kcu.column_name
FROM information_schema.table_constraints tc
JOIN information_schema.key_column_usage kcu
  ON tc.constraint_name = kcu.constraint_name
 AND tc.table_schema = kcu.table_schema
WHERE tc.table_name = 'proxies'
  AND tc.constraint_type = 'PRIMARY KEY'
ORDER BY kcu.ordinal_position";

/// Drops the table.
pub const DROP_TABLE_SQL: &'static str = "DROP TABLE IF EXISTS proxies";

/// Creates the table.
pub const CREATE_TABLE_SQL: &'static str = "CREATE TABLE proxies (
    ip TEXT NOT NULL,
    port INTEGER NOT NULL,
    country_code TEXT,
    country_name TEXT,
    city_code TEXT,
    city_name TEXT,
    asn_number TEXT,
    org_name TEXT,
    updated_at TIMESTAMPTZ NOT NULL,
    PRIMARY KEY (ip, port)
)";

/// Counts the rows.
pub const COUNT_SQL: &'static str = "SELECT COUNT(*) FROM proxies";

/// Writes one row over one with the same key: the fields of a [`ProxyRow`] in their order,
/// then the time of the scan.
pub const UPSERT_SQL: &'static str = "INSERT INTO proxies (ip, port, country_code, country_name, city_code, city_name, asn_number, org_name, updated_at)
VALUES ($1, $2, $3, $4, $5, $6, $7, $8, $9)
ON CONFLICT (ip, port)
DO UPDATE SET
    country_code = EXCLUDED.country_code,
    country_name = EXCLUDED.country_name,
    city_code = EXCLUDED.city_code,
    city_name = EXCLUDED.city_name,
    asn_number = EXCLUDED.asn_number,
    org_name = EXCLUDED.org_name,
    updated_at = EXCLUDED.updated_at";

/// Deletes the rows of earlier scans.
pub const CLEANUP_SQL: &'static str = "DELETE FROM proxies WHERE updated_at < $1";

/// The columns of the primary key that the table is to have.
pub open spec fn expected_primary_key() -> Seq<Seq<char>> {
    Seq::new(2, |i: int| EXPECTED_PROXIES_PRIMARY_KEY@[i]@)
}

/// Name, type and nullability of the columns that the table is to have.
pub open spec fn expected_columns() -> Seq<(Seq<char>, Seq<char>, bool)> {
    Seq::new(
        9,
        |i: int|
            (
                EXPECTED_PROXIES_COLUMNS@[i].0@,
                EXPECTED_PROXIES_COLUMNS@[i].1@,
                EXPECTED_PROXIES_COLUMNS@[i].2,
            ),
    )
}

/// The contents of a description of columns.
pub open spec fn column_texts(columns: Seq<(String, String, bool)>) -> Seq<
    (Seq<char>, Seq<char>, bool),
> {
    Seq::new(columns.len(), |i: int| (columns[i].0@, columns[i].1@, columns[i].2))
}

/// Whether a table with these columns and this primary key is as it is to be: the same
/// columns, and the same key, in the same order.
pub fn is_expected_proxies_schema(
    actual_columns: &[(String, String, bool)],
    primary_key_columns: &[String],
) -> (r: bool)
    ensures
        r == (column_texts(actual_columns@) == expected_columns() && text::texts(
            primary_key_columns@,
        ) == expected_primary_key()),
{
    if primary_key_columns.len() != EXPECTED_PROXIES_PRIMARY_KEY.len() {
        assert(text::texts(primary_key_columns@).len() != expected_primary_key().len());
        return false;
    }
    if actual_columns.len() != EXPECTED_PROXIES_COLUMNS.len() {
        assert(column_texts(actual_columns@).len() != expected_columns().len());
        return false;
    }
    let ghost key = text::texts(primary_key_columns@);
    let mut i: usize = 0;
    while i < EXPECTED_PROXIES_PRIMARY_KEY.len()
        invariant
            i <= 2,
            key == text::texts(primary_key_columns@),
            key.len() == 2,
            forall|k: int| 0 <= k < i ==> key[k] == #[trigger] expected_primary_key()[k],
        decreases 2 - i,
    {
        if !text::same_text(primary_key_columns[i].as_str(), EXPECTED_PROXIES_PRIMARY_KEY[i]) {
            assert(key[i as int] != expected_primary_key()[i as int]);
            return false;
        }
        i = i + 1;
    }
    assert(key == expected_primary_key());
    let ghost columns = column_texts(actual_columns@);
    let mut j: usize = 0;
    while j < EXPECTED_PROXIES_COLUMNS.len()
        invariant
            j <= 9,
            columns == column_texts(actual_columns@),
            columns.len() == 9,
            forall|k: int| 0 <= k < j ==> columns[k] == #[trigger] expected_columns()[k],
        decreases 9 - j,
    {
        let actual = &actual_columns[j];
        let expected = EXPECTED_PROXIES_COLUMNS[j];
        if !(text::same_text(actual.0.as_str(), expected.0) && text::same_text(
            actual.1.as_str(),
            expected.1,
        ) && actual.2 == expected.2) {
            assert(columns[j as int] != expected_columns()[j as int]);
            return false;
        }
        j = j + 1;
    }
    assert(columns == expected_columns());
    true
}

/// What one row of the answer to [`COLUMNS_SQL`] says of a column.
pub fn column_of_row(name: String, data_type: String, is_nullable: &str) -> (r: (
    String,
    String,
    bool,
))
    ensures
        r.0@ == name@,
        r.1@ == data_type@,
        r.2 == (is_nullable@ == "YES"@),
{
    let nullable = text::same_text(is_nullable, "YES");
    (name, data_type, nullable)
}

/// What is known of the table when it is to be brought into shape.
pub enum SchemaEvent {
    /// Nothing yet.
    Start,
    /// Whether it exists.
    TableChecked(bool),
    /// The columns and the primary key of the table that exists.
    Described { columns: Vec<(String, String, bool)>, primary_key: Vec<String> },
}

/// What to do next about the table.
#[derive(Debug, Clone, Copy, PartialEq, Eq, Structural)]
pub enum SchemaStep {
    /// Ask whether it exists.
    CheckTable,
    /// Ask for its columns and its primary key.
    DescribeTable,
    /// Leave it as it is.
    Keep,
    /// Create it.
    Create,
    /// Drop it and create it again, in one transaction.
    Recreate,
}

/// The step that follows from what is known.
pub open spec fn schema_step(event: SchemaEvent) -> SchemaStep {
    match event {
        SchemaEvent::Start => SchemaStep::CheckTable,
        SchemaEvent::TableChecked(exists) => if exists {
            SchemaStep::DescribeTable
        } else {
            SchemaStep::Create
        },
        SchemaEvent::Described { columns, primary_key } => if column_texts(columns@)
            == expected_columns() && text::texts(primary_key@) == expected_primary_key() {
            SchemaStep::Keep
        } else {
            SchemaStep::Recreate
        },
    }
}

/// Decides what to do next about the table.
pub fn next_schema_step(event: &SchemaEvent) -> (r: SchemaStep)
    ensures
        r == schema_step(*event),
{
    match event {
        SchemaEvent::Start => SchemaStep::CheckTable,
        SchemaEvent::TableChecked(exists) => {
            if *exists {
                SchemaStep::DescribeTable
            } else {
                SchemaStep::Create
            }
        },
        SchemaEvent::Described { columns, primary_key } => {
            if is_expected_proxies_schema(columns.as_slice(), primary_key.as_slice()) {
                SchemaStep::Keep
            } else {
                SchemaStep::Recreate
            }
        },
    }
}

/// The statements that carry out a step, in order.
pub open spec fn step_statements(step: SchemaStep) -> Seq<Seq<char>> {
    match step {
        SchemaStep::CheckTable => seq![TABLE_EXISTS_SQL@],
        SchemaStep::DescribeTable => seq![COLUMNS_SQL@, PRIMARY_KEY_SQL@],
        SchemaStep::Keep => Seq::empty(),
        SchemaStep::Create => seq![CREATE_TABLE_SQL@],
        SchemaStep::Recreate => seq![DROP_TABLE_SQL@, CREATE_TABLE_SQL@],
    }
}

/// The statements that carry out a step, in order.
pub fn statements(step: SchemaStep) -> (r: Vec<&'static str>)
    ensures
        Seq::new(r@.len(), |i: int| r@[i]@) == step_statements(step),
{
    let mut out: Vec<&'static str> = Vec::new();
    match step {
        SchemaStep::CheckTable => {
            out.push(TABLE_EXISTS_SQL);
        },
        SchemaStep::DescribeTable => {
            out.push(COLUMNS_SQL);
            out.push(PRIMARY_KEY_SQL);
        },
        SchemaStep::Keep => {},
        SchemaStep::Create => {
            out.push(CREATE_TABLE_SQL);
        },
        SchemaStep::Recreate => {
            out.push(DROP_TABLE_SQL);
            out.push(CREATE_TABLE_SQL);
        },
    }
    out
}

/// A proxy as the fields of its row, but for the time of the scan.
pub struct ProxyRow {
    pub ip: String,
    pub port: i32,
    pub country_code: String,
    pub country_name: String,
    pub city_code: String,
    pub city_name: String,
    pub asn_number: String,
    pub org_name: String,
}

/// Whether a row holds what is known of a proxy.
pub open spec fn row_of(row: ProxyRow, proxy: ProxyData) -> bool {
    &&& row.ip@ == proxy.ip@
    &&& row.port == proxy.port
    &&& row.country_code@ == proxy.country_code@
    &&& row.country_name@ == proxy.country_name@
    &&& row.city_code@ == proxy.city_code@
    &&& row.city_name@ == proxy.city_name@
    &&& row.asn_number@ == proxy.asn_number@
    &&& row.org_name@ == proxy.org_name@
}

/// The rows of a batch, one for each proxy, in order.
pub fn batch_rows(proxies: &[ProxyData]) -> (r: Vec<ProxyRow>)
    ensures
        r@.len() == proxies@.len(),
        forall|i: int| 0 <= i < r@.len() ==> row_of(#[trigger] r@[i], proxies@[i]),
{
    let mut out: Vec<ProxyRow> = Vec::new();
    let mut i: usize = 0;
    while i < proxies.len()
        invariant
            i <= proxies@.len(),
            out@.len() == i,
            forall|k: int| 0 <= k < i ==> row_of(#[trigger] out@[k], proxies@[k]),
        decreases proxies@.len() - i,
    {
        let proxy = &proxies[i];
        out.push(
            ProxyRow {
                ip: proxy.ip.clone(),
                port: proxy.port as i32,
                country_code: proxy.country_code.clone(),
                country_name: proxy.country_name.clone(),
                city_code: proxy.city_code.clone(),
                city_name: proxy.city_name.clone(),
                asn_number: proxy.asn_number.clone(),
                org_name: proxy.org_name.clone(),
            },
        );
        i = i + 1;
    }
    out
}

/// What is wrong with the setting of the database.
#[derive(Debug, Clone, Copy, PartialEq, Eq, Structural)]
pub enum SettingError {
    /// It is not there.
    NotSet,
    /// It is empty.
    Empty,
}

impl SettingError {
    /// What to tell a user.
    pub fn message(&self) -> (r: &'static str)
        ensures
            r@ == match *self {
                SettingError::NotSet => "DATABASE_URL not set. PostgreSQL connection is required."@,
                SettingError::Empty => "DATABASE_URL is empty. PostgreSQL connection is required."@,
            },
    {
        match *self {
            SettingError::NotSet => "DATABASE_URL not set. PostgreSQL connection is required.",
            SettingError::Empty => "DATABASE_URL is empty. PostgreSQL connection is required.",
        }
    }
}

/// The URL of the database, from the variable that holds it.
pub fn database_url(variable: Option<String>) -> (r: Result<String, SettingError>)
    ensures
        match variable {
            Some(url) => if url@.len() == 0 {
                r == Err::<String, SettingError>(SettingError::Empty)
            } else {
                r is Ok && r->Ok_0@ == url@
            },
            None => r == Err::<String, SettingError>(SettingError::NotSet),
        },
{
    match variable {
        Some(url) => {
            if url.as_str().is_empty() {
                Err(SettingError::Empty)
            } else {
                Ok(url)
            }
        },
        None => Err(SettingError::NotSet),
    }
}

/// How many characters of the URL may be shown.
pub const URL_PREVIEW_LENGTH: usize = 20;

/// The start of the URL, to be shown without what follows.
pub fn url_preview(url: &str) -> (r: String)
    ensures
        r@ == if url@.len() <= URL_PREVIEW_LENGTH {
            url@
        } else {
            url@.take(URL_PREVIEW_LENGTH as int)
        },
{
    let chars = text::chars_of(url);
    let end: usize = if chars.len() <= URL_PREVIEW_LENGTH { chars.len() } else { URL_PREVIEW_LENGTH };
    text::string_of(&chars, 0, end)
}

/// What an unreadable URL is refused with.
#[verifier::external_type_specification]
#[verifier::external_body]
pub struct ExPostgresError(tokio_postgres::Error);

/// Whether a URL asks for an encrypted connection.
#[derive(Debug, Clone, Copy, PartialEq, Eq, Structural)]
pub enum SslMode {
    Disable,
    Prefer,
    Require,
    Other,
}

/// The mode that a URL asks for; the reason where it cannot be read.
pub uninterp spec fn ssl_mode(url: Seq<char>) -> Result<SslMode, tokio_postgres::Error>;

/// `FromStr` of `tokio_postgres::Config`, and `Config::get_ssl_mode`: which mode the URL asks
/// for, and with which reason it is refused where it cannot be read, is a function of it alone.
#[verifier::external_body]
fn read_ssl_mode(url: &str) -> (r: Result<SslMode, tokio_postgres::Error>)
    ensures
        r == ssl_mode(url@),
{
    let config = url.parse::<tokio_postgres::Config>()?;
    Ok(match config.get_ssl_mode() {
        tokio_postgres::config::SslMode::Disable => SslMode::Disable,
        tokio_postgres::config::SslMode::Prefer => SslMode::Prefer,
        tokio_postgres::config::SslMode::Require => SslMode::Require,
        _ => SslMode::Other,
    })
}

/// Why a URL cannot be used.
#[derive(Debug)]
pub enum UrlError {
    /// It cannot be read, for the reason that this holds.
    Unreadable(tokio_postgres::Error),
}

/// What the connection takes from a server without proof.
#[derive(Debug, Clone, Copy, PartialEq, Eq, Structural)]
pub struct TlsPolicy {
    pub accept_invalid_certs: bool,
    pub accept_invalid_hostnames: bool,
}

/// The policy for a mode. The modes that encrypt are those of libpq, which encrypt but do not
/// look at the server's certificate.
pub open spec fn policy_for(mode: SslMode) -> TlsPolicy {
    let encrypt_only = mode == SslMode::Prefer || mode == SslMode::Require;
    TlsPolicy { accept_invalid_certs: encrypt_only, accept_invalid_hostnames: encrypt_only }
}

/// The policy for a mode.
pub fn tls_policy(mode: SslMode) -> (r: TlsPolicy)
    ensures
        r == policy_for(mode),
{
    let encrypt_only = match mode {
        SslMode::Prefer => true,
        SslMode::Require => true,
        SslMode::Disable => false,
        SslMode::Other => false,
    };
    TlsPolicy { accept_invalid_certs: encrypt_only, accept_invalid_hostnames: encrypt_only }
}

/// The policy that a URL asks for.
pub fn pg_tls_policy(database_url: &str) -> (r: Result<TlsPolicy, UrlError>)
    ensures
        match ssl_mode(database_url@) {
            Ok(mode) => r == Ok::<TlsPolicy, UrlError>(policy_for(mode)),
            Err(e) => r == Err::<TlsPolicy, UrlError>(UrlError::Unreadable(e)),
        },
{
    match read_ssl_mode(database_url) {
        Ok(mode) => Ok(tls_policy(mode)),
        Err(e) => Err(UrlError::Unreadable(e)),
    }
}

} // verus!
