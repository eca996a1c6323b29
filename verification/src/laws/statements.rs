//! What the statements that are sent to the database say.

use crate::database::{self, SchemaEvent};
use crate::text;
use vstd::prelude::*;

verus! {

/// A column type as a statement writes it.
pub open spec fn type_text(data_type: Seq<char>) -> Seq<char> {
    if data_type == "text"@ {
        "TEXT"@
    } else if data_type == "integer"@ {
        "INTEGER"@
    } else if data_type == "timestamp with time zone"@ {
        "TIMESTAMPTZ"@
    } else {
        data_type
    }
}

/// A column as one line of a statement that creates its table.
pub open spec fn column_line(column: (Seq<char>, Seq<char>, bool)) -> Seq<char> {
    "    "@ + column.0 + " "@ + type_text(column.1) + if column.2 {
        ",\n"@
    } else {
        " NOT NULL,\n"@
    }
}

/// Columns as the lines of a statement that creates their table.
pub open spec fn columns_text(columns: Seq<(Seq<char>, Seq<char>, bool)>) -> Seq<char>
    decreases columns.len(),
{
    if columns.len() == 0 {
        Seq::empty()
    } else {
        columns_text(columns.drop_last()) + column_line(columns.last())
    }
}

/// Names with commas between them.
pub open spec fn names_text(names: Seq<Seq<char>>) -> Seq<char>
    decreases names.len(),
{
    if names.len() == 0 {
        Seq::empty()
    } else if names.len() == 1 {
        names[0]
    } else {
        names_text(names.drop_last()) + ", "@ + names.last()
    }
}

/// The statement that creates a table with these columns and this primary key.
pub open spec fn create_text(
    columns: Seq<(Seq<char>, Seq<char>, bool)>,
    primary_key: Seq<Seq<char>>,
) -> Seq<char> {
    "CREATE TABLE proxies (\n"@ + columns_text(columns) + "    PRIMARY KEY ("@ + names_text(
        primary_key,
    ) + ")\n)"@
}

/// The lines of the columns that the table is to have.
proof fn lemma_column_lines()
    ensures
        column_line(database::expected_columns()[0]) == "    ip TEXT NOT NULL,\n"@,
        column_line(database::expected_columns()[1]) == "    port INTEGER NOT NULL,\n"@,
        column_line(database::expected_columns()[2]) == "    country_code TEXT,\n"@,
        column_line(database::expected_columns()[3]) == "    country_name TEXT,\n"@,
        column_line(database::expected_columns()[4]) == "    city_code TEXT,\n"@,
        column_line(database::expected_columns()[5]) == "    city_name TEXT,\n"@,
        column_line(database::expected_columns()[6]) == "    asn_number TEXT,\n"@,
        column_line(database::expected_columns()[7]) == "    org_name TEXT,\n"@,
        column_line(database::expected_columns()[8]) == "    updated_at TIMESTAMPTZ NOT NULL,\n"@,
{
    reveal_strlit("text");
    reveal_strlit("integer");
    reveal_strlit("timestamp with time zone");
    reveal_strlit("TEXT");
    reveal_strlit("INTEGER");
    reveal_strlit("TIMESTAMPTZ");
    reveal_strlit("    ");
    reveal_strlit(" ");
    reveal_strlit(",\n");
    reveal_strlit(" NOT NULL,\n");
    reveal_strlit("ip");
    reveal_strlit("port");
    reveal_strlit("country_code");
    reveal_strlit("country_name");
    reveal_strlit("city_code");
    reveal_strlit("city_name");
    reveal_strlit("asn_number");
    reveal_strlit("org_name");
    reveal_strlit("updated_at");
    reveal_strlit("    ip TEXT NOT NULL,\n");
    reveal_strlit("    port INTEGER NOT NULL,\n");
    reveal_strlit("    country_code TEXT,\n");
    reveal_strlit("    country_name TEXT,\n");
    reveal_strlit("    city_code TEXT,\n");
    reveal_strlit("    city_name TEXT,\n");
    reveal_strlit("    asn_number TEXT,\n");
    reveal_strlit("    org_name TEXT,\n");
    reveal_strlit("    updated_at TIMESTAMPTZ NOT NULL,\n");
    let columns = database::expected_columns();
    assert(columns[0] == ("ip"@, "text"@, false));
    assert(columns[1] == ("port"@, "integer"@, false));
    assert(columns[2] == ("country_code"@, "text"@, true));
    assert(columns[3] == ("country_name"@, "text"@, true));
    assert(columns[4] == ("city_code"@, "text"@, true));
    assert(columns[5] == ("city_name"@, "text"@, true));
    assert(columns[6] == ("asn_number"@, "text"@, true));
    assert(columns[7] == ("org_name"@, "text"@, true));
    assert(columns[8] == ("updated_at"@, "timestamp with time zone"@, false));
    assert("text"@.len() != "integer"@.len());
    assert(column_line(columns[0]) =~= "    ip TEXT NOT NULL,\n"@);
    assert(column_line(columns[1]) =~= "    port INTEGER NOT NULL,\n"@);
    assert(column_line(columns[2]) =~= "    country_code TEXT,\n"@);
    assert(column_line(columns[3]) =~= "    country_name TEXT,\n"@);
    assert(column_line(columns[4]) =~= "    city_code TEXT,\n"@);
    assert(column_line(columns[5]) =~= "    city_name TEXT,\n"@);
    assert(column_line(columns[6]) =~= "    asn_number TEXT,\n"@);
    assert(column_line(columns[7]) =~= "    org_name TEXT,\n"@);
    assert(column_line(columns[8]) =~= "    updated_at TIMESTAMPTZ NOT NULL,\n"@);
}

/// The names of the columns of the primary key.
proof fn lemma_primary_key()
    ensures
        names_text(database::expected_primary_key()) == "ip, port"@,
{
    let key = database::expected_primary_key();
    reveal_with_fuel(names_text, 3);
    reveal_strlit("ip");
    reveal_strlit(", ");
    reveal_strlit("port");
    reveal_strlit("ip, port");
    assert(key.drop_last() == seq!["ip"@]);
    assert(names_text(key) =~= "ip, port"@);
}

/// The lines of all columns, one after the other.
proof fn lemma_columns_text()
    ensures
        columns_text(database::expected_columns())
            == "    ip TEXT NOT NULL,\n    port INTEGER NOT NULL,\n    country_code TEXT,\n    country_name TEXT,\n    city_code TEXT,\n    city_name TEXT,\n    asn_number TEXT,\n    org_name TEXT,\n    updated_at TIMESTAMPTZ NOT NULL,\n"@,
{
    let columns = database::expected_columns();
    lemma_column_lines();
    reveal_with_fuel(columns_text, 10);
    assert(columns.take(9).drop_last() == columns.take(8));
    assert(columns.take(8).drop_last() == columns.take(7));
    assert(columns.take(7).drop_last() == columns.take(6));
    assert(columns.take(6).drop_last() == columns.take(5));
    assert(columns.take(5).drop_last() == columns.take(4));
    assert(columns.take(4).drop_last() == columns.take(3));
    assert(columns.take(3).drop_last() == columns.take(2));
    assert(columns.take(2).drop_last() == columns.take(1));
    assert(columns.take(1).drop_last() == columns.take(0));
    assert(columns.take(9) == columns);
    reveal_strlit("    ip TEXT NOT NULL,\n");
    reveal_strlit("    port INTEGER NOT NULL,\n");
    reveal_strlit("    country_code TEXT,\n");
    reveal_strlit("    country_name TEXT,\n");
    reveal_strlit("    city_code TEXT,\n");
    reveal_strlit("    city_name TEXT,\n");
    reveal_strlit("    asn_number TEXT,\n");
    reveal_strlit("    org_name TEXT,\n");
    reveal_strlit("    updated_at TIMESTAMPTZ NOT NULL,\n");
    reveal_strlit(
        "    ip TEXT NOT NULL,\n    port INTEGER NOT NULL,\n    country_code TEXT,\n    country_name TEXT,\n    city_code TEXT,\n    city_name TEXT,\n    asn_number TEXT,\n    org_name TEXT,\n    updated_at TIMESTAMPTZ NOT NULL,\n",
    );
    assert(columns_text(columns)
        =~= "    ip TEXT NOT NULL,\n    port INTEGER NOT NULL,\n    country_code TEXT,\n    country_name TEXT,\n    city_code TEXT,\n    city_name TEXT,\n    asn_number TEXT,\n    org_name TEXT,\n    updated_at TIMESTAMPTZ NOT NULL,\n"@);
}

/// The table that is created has the columns and the primary key that it is to have.
pub proof fn law_created_table_is_expected()
    ensures
        database::CREATE_TABLE_SQL@ == create_text(
            database::expected_columns(),
            database::expected_primary_key(),
        ),
{
    lemma_columns_text();
    lemma_primary_key();
    reveal_strlit("CREATE TABLE proxies (\n");
    reveal_strlit(
        "    ip TEXT NOT NULL,\n    port INTEGER NOT NULL,\n    country_code TEXT,\n    country_name TEXT,\n    city_code TEXT,\n    city_name TEXT,\n    asn_number TEXT,\n    org_name TEXT,\n    updated_at TIMESTAMPTZ NOT NULL,\n",
    );
    reveal_strlit("    PRIMARY KEY (");
    reveal_strlit("ip, port");
    reveal_strlit(")\n)");
    reveal_strlit(
        "CREATE TABLE proxies (
    ip TEXT NOT NULL,
    port INTEGER NOT NULL,
    country_code TEXT,
    country_name TEXT,
    city_code TEXT,
    city_name TEXT,
    asn_number TEXT,
    org_name TEXT,
    updated_at TIMESTAMPTZ NOT NULL,
    PRIMARY KEY (ip, port)
)",
    );
    assert(database::CREATE_TABLE_SQL@ =~= create_text(
        database::expected_columns(),
        database::expected_primary_key(),
    ));
}

/// The names of the columns that the table is to have.
pub open spec fn column_names() -> Seq<Seq<char>> {
    Seq::new(9, |i: int| database::expected_columns()[i].0)
}

/// The parameters of a statement, from the first to the last.
pub open spec fn parameters(count: nat) -> Seq<Seq<char>> {
    Seq::new(count, |i: int| "$"@ + text::decimal_text((i + 1) as nat))
}

/// One line for each column that takes the new value.
pub open spec fn updates_text(names: Seq<Seq<char>>) -> Seq<char>
    decreases names.len(),
{
    if names.len() == 0 {
        Seq::empty()
    } else {
        let line = "    "@ + names.last() + " = EXCLUDED."@ + names.last();
        if names.len() == 1 {
            line
        } else {
            updates_text(names.drop_last()) + ",\n"@ + line
        }
    }
}

/// The statement that writes one row with a value for each column; on a row with the same key,
/// the columns `updated` take the new values.
pub open spec fn upsert_text(
    names: Seq<Seq<char>>,
    primary_key: Seq<Seq<char>>,
    updated: Seq<Seq<char>>,
) -> Seq<char> {
    "INSERT INTO proxies ("@ + names_text(names) + ")\nVALUES ("@ + names_text(
        parameters(names.len()),
    ) + ")\nON CONFLICT ("@ + names_text(primary_key) + ")\nDO UPDATE SET\n"@ + updates_text(
        updated,
    )
}

/// The names of the columns with commas between them.
proof fn lemma_column_names()
    ensures
        names_text(column_names()) == "ip, port, country_code, country_name, city_code, city_name, asn_number, org_name, updated_at"@,
{
    let names = column_names();
    reveal_with_fuel(names_text, 10);
    assert(names.take(9).drop_last() == names.take(8));
    assert(names.take(8).drop_last() == names.take(7));
    assert(names.take(7).drop_last() == names.take(6));
    assert(names.take(6).drop_last() == names.take(5));
    assert(names.take(5).drop_last() == names.take(4));
    assert(names.take(4).drop_last() == names.take(3));
    assert(names.take(3).drop_last() == names.take(2));
    assert(names.take(2).drop_last() == names.take(1));
    assert(names.take(9) == names);
    reveal_strlit("ip");
    reveal_strlit("port");
    reveal_strlit("country_code");
    reveal_strlit("country_name");
    reveal_strlit("city_code");
    reveal_strlit("city_name");
    reveal_strlit("asn_number");
    reveal_strlit("org_name");
    reveal_strlit("updated_at");
    reveal_strlit(", ");
    reveal_strlit("ip, port, country_code, country_name, city_code, city_name, asn_number, org_name, updated_at");
    assert(names_text(names) =~= "ip, port, country_code, country_name, city_code, city_name, asn_number, org_name, updated_at"@);
}

/// The parameters of a row with commas between them.
proof fn lemma_parameters()
    ensures
        names_text(parameters(9)) == "$1, $2, $3, $4, $5, $6, $7, $8, $9"@,
{
    let given = parameters(9);
    reveal_with_fuel(names_text, 10);
    assert(given.take(9).drop_last() == given.take(8));
    assert(given.take(8).drop_last() == given.take(7));
    assert(given.take(7).drop_last() == given.take(6));
    assert(given.take(6).drop_last() == given.take(5));
    assert(given.take(5).drop_last() == given.take(4));
    assert(given.take(4).drop_last() == given.take(3));
    assert(given.take(3).drop_last() == given.take(2));
    assert(given.take(2).drop_last() == given.take(1));
    assert(given.take(9) == given);
    reveal_strlit("$");
    reveal_strlit(", ");
    reveal_strlit("$1, $2, $3, $4, $5, $6, $7, $8, $9");
    assert(names_text(given) =~= "$1, $2, $3, $4, $5, $6, $7, $8, $9"@);
}

/// The columns that take new values, one line each.
proof fn lemma_updates()
    ensures
        updates_text(column_names().skip(2)) == "    country_code = EXCLUDED.country_code,\n    country_name = EXCLUDED.country_name,\n    city_code = EXCLUDED.city_code,\n    city_name = EXCLUDED.city_name,\n    asn_number = EXCLUDED.asn_number,\n    org_name = EXCLUDED.org_name,\n    updated_at = EXCLUDED.updated_at"@,
{
    let names = column_names().skip(2);
    reveal_with_fuel(updates_text, 8);
    assert(names.take(7).drop_last() == names.take(6));
    assert(names.take(6).drop_last() == names.take(5));
    assert(names.take(5).drop_last() == names.take(4));
    assert(names.take(4).drop_last() == names.take(3));
    assert(names.take(3).drop_last() == names.take(2));
    assert(names.take(2).drop_last() == names.take(1));
    assert(names.take(7) == names);
    reveal_strlit("    ");
    reveal_strlit(" = EXCLUDED.");
    reveal_strlit("country_code");
    reveal_strlit("country_name");
    reveal_strlit("city_code");
    reveal_strlit("city_name");
    reveal_strlit("asn_number");
    reveal_strlit("org_name");
    reveal_strlit("updated_at");
    reveal_strlit(",\n");
    reveal_strlit("    country_code = EXCLUDED.country_code,\n    country_name = EXCLUDED.country_name,\n    city_code = EXCLUDED.city_code,\n    city_name = EXCLUDED.city_name,\n    asn_number = EXCLUDED.asn_number,\n    org_name = EXCLUDED.org_name,\n    updated_at = EXCLUDED.updated_at");
    assert(updates_text(names) =~= "    country_code = EXCLUDED.country_code,\n    country_name = EXCLUDED.country_name,\n    city_code = EXCLUDED.city_code,\n    city_name = EXCLUDED.city_name,\n    asn_number = EXCLUDED.asn_number,\n    org_name = EXCLUDED.org_name,\n    updated_at = EXCLUDED.updated_at"@);
}

/// A row is written with a value for every column of the table, and replaces what a row with
/// the same primary key holds in all other columns.
pub proof fn law_upsert_writes_every_column()
    ensures
        database::UPSERT_SQL@ == upsert_text(
            column_names(),
            database::expected_primary_key(),
            column_names().skip(2),
        ),
{
    let key = database::expected_primary_key();
    lemma_column_names();
    lemma_parameters();
    lemma_updates();
    lemma_primary_key();
    reveal_strlit("INSERT INTO proxies (");
    reveal_strlit("ip, port, country_code, country_name, city_code, city_name, asn_number, org_name, updated_at");
    reveal_strlit(")\nVALUES (");
    reveal_strlit("$1, $2, $3, $4, $5, $6, $7, $8, $9");
    reveal_strlit(")\nON CONFLICT (");
    reveal_strlit("ip, port");
    reveal_strlit(")\nDO UPDATE SET\n");
    reveal_strlit("    country_code = EXCLUDED.country_code,\n    country_name = EXCLUDED.country_name,\n    city_code = EXCLUDED.city_code,\n    city_name = EXCLUDED.city_name,\n    asn_number = EXCLUDED.asn_number,\n    org_name = EXCLUDED.org_name,\n    updated_at = EXCLUDED.updated_at");
    reveal_strlit(
        "INSERT INTO proxies (ip, port, country_code, country_name, city_code, city_name, asn_number, org_name, updated_at)
VALUES ($1, $2, $3, $4, $5, $6, $7, $8, $9)
ON CONFLICT (ip, port)
DO UPDATE SET
    country_code = EXCLUDED.country_code,
    country_name = EXCLUDED.country_name,
    city_code = EXCLUDED.city_code,
    city_name = EXCLUDED.city_name,
    asn_number = EXCLUDED.asn_number,
    org_name = EXCLUDED.org_name,
    updated_at = EXCLUDED.updated_at",
    );
    assert(database::UPSERT_SQL@ =~= upsert_text(column_names(), key, column_names().skip(2)));
}

/// The first characters of the statements tell questions, drops and creations apart.
pub(crate) proof fn lemma_first_letters()
    ensures
        database::TABLE_EXISTS_SQL@[0] == 'S',
        database::COLUMNS_SQL@[0] == 'S',
        database::PRIMARY_KEY_SQL@[0] == 'S',
        database::DROP_TABLE_SQL@[0] == 'D',
        database::CREATE_TABLE_SQL@[0] == 'C',
{
    reveal_strlit(
        "SELECT EXISTS (
    SELECT FROM information_schema.tables
    WHERE table_name = 'proxies'
)",
    );
    reveal_strlit(
        "SELECT column_name, data_type, is_nullable
FROM information_schema.columns
WHERE table_name = 'proxies'
ORDER BY ordinal_position",
    );
    reveal_strlit(
        "SELECT kcu.column_name
FROM information_schema.table_constraints tc
JOIN information_schema.key_column_usage kcu
  ON tc.constraint_name = kcu.constraint_name
 AND tc.table_schema = kcu.table_schema
WHERE tc.table_name = 'proxies'
  AND tc.constraint_type = 'PRIMARY KEY'
ORDER BY kcu.ordinal_position",
    );
    reveal_strlit(
        "DROP TABLE IF EXISTS proxies",
    );
    reveal_strlit(
        "CREATE TABLE proxies (
    ip TEXT NOT NULL,
    port INTEGER NOT NULL,
    country_code TEXT,
    country_name TEXT,
    city_code TEXT,
    city_name TEXT,
    asn_number TEXT,
    org_name TEXT,
    updated_at TIMESTAMPTZ NOT NULL,
    PRIMARY KEY (ip, port)
)",
    );
}

/// The statement that drops the table is sent if and only if the table is there and is not as
/// it is to be.
pub proof fn law_only_a_mismatched_table_is_dropped(event: SchemaEvent)
    ensures
        database::step_statements(database::schema_step(event)).contains(database::DROP_TABLE_SQL@)
            <==> event is Described && !(database::column_texts(event->columns@)
            == database::expected_columns() && text::texts(event->primary_key@)
            == database::expected_primary_key()),
{
    lemma_first_letters();
    let all = database::step_statements(database::schema_step(event));
    if event is Described {
        assert(all.len() > 0 ==> all[0] == database::DROP_TABLE_SQL@);
    }
}

/// The first question is whether there is a table of this name.
pub proof fn law_existence_is_asked()
    ensures
        database::TABLE_EXISTS_SQL@ == "SELECT EXISTS (\n"@ + "    SELECT FROM information_schema.tables\n"@ + "    WHERE table_name = 'proxies'\n"@ + ")"@,
{
    reveal_strlit("SELECT EXISTS (\n");
    reveal_strlit("    SELECT FROM information_schema.tables\n");
    reveal_strlit("    WHERE table_name = 'proxies'\n");
    reveal_strlit(")");
    reveal_strlit(
        "SELECT EXISTS (
    SELECT FROM information_schema.tables
    WHERE table_name = 'proxies'
)",
    );
    assert(database::TABLE_EXISTS_SQL@ =~= "SELECT EXISTS (\n"@ + "    SELECT FROM information_schema.tables\n"@ + "    WHERE table_name = 'proxies'\n"@ + ")"@);
}

/// The second question asks for name, type and nullability of the columns of the table, in their
/// order.
pub proof fn law_columns_are_asked()
    ensures
        database::COLUMNS_SQL@ == "SELECT column_name, data_type, is_nullable\n"@ + "FROM information_schema.columns\n"@ + "WHERE table_name = 'proxies'\n"@ + "ORDER BY ordinal_position"@,
{
    reveal_strlit("SELECT column_name, data_type, is_nullable\n");
    reveal_strlit("FROM information_schema.columns\n");
    reveal_strlit("WHERE table_name = 'proxies'\n");
    reveal_strlit("ORDER BY ordinal_position");
    reveal_strlit(
        "SELECT column_name, data_type, is_nullable
FROM information_schema.columns
WHERE table_name = 'proxies'
ORDER BY ordinal_position",
    );
    assert(database::COLUMNS_SQL@ =~= "SELECT column_name, data_type, is_nullable\n"@ + "FROM information_schema.columns\n"@ + "WHERE table_name = 'proxies'\n"@ + "ORDER BY ordinal_position"@);
}

/// The third question asks for the columns of the primary key of the table, in their order.
pub proof fn law_primary_key_is_asked()
    ensures
        database::PRIMARY_KEY_SQL@ == "SELECT kcu.column_name\n"@ + "FROM information_schema.table_constraints tc\n"@ + "JOIN information_schema.key_column_usage kcu\n"@ + "  ON tc.constraint_name = kcu.constraint_name\n"@ + " AND tc.table_schema = kcu.table_schema\n"@ + "WHERE tc.table_name = 'proxies'\n"@ + "  AND tc.constraint_type = 'PRIMARY KEY'\n"@ + "ORDER BY kcu.ordinal_position"@,
{
    reveal_strlit("SELECT kcu.column_name\n");
    reveal_strlit("FROM information_schema.table_constraints tc\n");
    reveal_strlit("JOIN information_schema.key_column_usage kcu\n");
    reveal_strlit("  ON tc.constraint_name = kcu.constraint_name\n");
    reveal_strlit(" AND tc.table_schema = kcu.table_schema\n");
    reveal_strlit("WHERE tc.table_name = 'proxies'\n");
    reveal_strlit("  AND tc.constraint_type = 'PRIMARY KEY'\n");
    reveal_strlit("ORDER BY kcu.ordinal_position");
    reveal_strlit(
        "SELECT kcu.column_name
FROM information_schema.table_constraints tc
JOIN information_schema.key_column_usage kcu
  ON tc.constraint_name = kcu.constraint_name
 AND tc.table_schema = kcu.table_schema
WHERE tc.table_name = 'proxies'
  AND tc.constraint_type = 'PRIMARY KEY'
ORDER BY kcu.ordinal_position",
    );
    assert(database::PRIMARY_KEY_SQL@ =~= "SELECT kcu.column_name\n"@ + "FROM information_schema.table_constraints tc\n"@ + "JOIN information_schema.key_column_usage kcu\n"@ + "  ON tc.constraint_name = kcu.constraint_name\n"@ + " AND tc.table_schema = kcu.table_schema\n"@ + "WHERE tc.table_name = 'proxies'\n"@ + "  AND tc.constraint_type = 'PRIMARY KEY'\n"@ + "ORDER BY kcu.ordinal_position"@);
}

/// The statement that drops the table names it.
pub proof fn law_drop_names_the_table()
    ensures
        database::DROP_TABLE_SQL@ == "DROP TABLE IF EXISTS "@ + "proxies"@,
{
    reveal_strlit("DROP TABLE IF EXISTS ");
    reveal_strlit("proxies");
    reveal_strlit(
        "DROP TABLE IF EXISTS proxies",
    );
    assert(database::DROP_TABLE_SQL@ =~= "DROP TABLE IF EXISTS "@ + "proxies"@);
}

/// All rows of the table are counted.
pub proof fn law_rows_are_counted()
    ensures
        database::COUNT_SQL@ == "SELECT COUNT(*) FROM "@ + "proxies"@,
{
    reveal_strlit("SELECT COUNT(*) FROM ");
    reveal_strlit("proxies");
    reveal_strlit(
        "SELECT COUNT(*) FROM proxies",
    );
    assert(database::COUNT_SQL@ =~= "SELECT COUNT(*) FROM "@ + "proxies"@);
}

/// The rows that are deleted are those of the table with an earlier time.
pub proof fn law_only_older_rows_are_deleted()
    ensures
        database::CLEANUP_SQL@ == "DELETE FROM "@ + "proxies"@ + " WHERE updated_at < $1"@,
{
    reveal_strlit("DELETE FROM ");
    reveal_strlit("proxies");
    reveal_strlit(" WHERE updated_at < $1");
    reveal_strlit(
        "DELETE FROM proxies WHERE updated_at < $1",
    );
    assert(database::CLEANUP_SQL@ =~= "DELETE FROM "@ + "proxies"@ + " WHERE updated_at < $1"@);
}

} // verus!
