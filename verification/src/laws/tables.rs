//! The table that live proxies are kept in, and the connection to it.

use crate::database::{
    self, ProxyRow, SchemaEvent, SchemaStep, SettingError, SslMode, TlsPolicy, UrlError,
};
use crate::laws::statements;
use crate::proxy::{ProxyData, ProxyFacts};
use crate::text;
use vstd::prelude::*;

verus! {

/// What is done about the table in the end, for a database that says whether the table exists
/// and, when asked, describes it.
pub open spec fn settled(exists: bool, description: SchemaEvent) -> SchemaStep {
    match database::schema_step(SchemaEvent::TableChecked(exists)) {
        SchemaStep::DescribeTable => database::schema_step(description),
        step => step,
    }
}

/// Two answers of the database settle what is done about the table: it is created if and only
/// if it does not exist, recreated if and only if it exists and is described otherwise than
/// expected, and else left as it is.
pub proof fn law_schema_is_settled(exists: bool, description: SchemaEvent)
    requires
        description is Described,
    ensures
        ({
            let expected = database::column_texts(description->columns@)
                == database::expected_columns() && text::texts(description->primary_key@)
                == database::expected_primary_key();
            &&& database::schema_step(SchemaEvent::Start) == SchemaStep::CheckTable
            &&& settled(exists, description) == SchemaStep::Create <==> !exists
            &&& settled(exists, description) == SchemaStep::Recreate <==> exists && !expected
            &&& settled(exists, description) == SchemaStep::Keep <==> exists && expected
        }),
{
}

/// The table as a server holds it.
pub struct Table {
    pub columns: Seq<(Seq<char>, Seq<char>, bool)>,
    pub primary_key: Seq<Seq<char>>,
    pub rows: Seq<ProxyFacts>,
}

/// Whether a server that holds this table, or none, gives these answers: whether the table
/// exists and, where it does, its description.
pub open spec fn answers(table: Option<Table>, exists: bool, description: SchemaEvent) -> bool {
    match table {
        Some(table) => exists && (description matches SchemaEvent::Described {
            columns,
            primary_key,
        } && database::column_texts(columns@) == table.columns && text::texts(primary_key@)
            == table.primary_key),
        None => !exists,
    }
}

/// The statements that are sent to a server with these answers, in order.
pub open spec fn sent(exists: bool, description: SchemaEvent) -> Seq<Seq<char>> {
    let asked = database::step_statements(database::schema_step(SchemaEvent::Start));
    let next = database::schema_step(SchemaEvent::TableChecked(exists));
    asked + database::step_statements(next) + match next {
        SchemaStep::DescribeTable => database::step_statements(database::schema_step(description)),
        _ => Seq::empty(),
    }
}

/// What a server holds after a statement: none after a drop; the table that is written out,
/// without rows, after its creation where there was none; else what it held.
pub open spec fn after_statement(sql: Seq<char>, table: Option<Table>) -> Option<Table> {
    if sql == database::DROP_TABLE_SQL@ {
        None
    } else if sql == statements::create_text(
        database::expected_columns(),
        database::expected_primary_key(),
    ) && table is None {
        Some(
            Table {
                columns: database::expected_columns(),
                primary_key: database::expected_primary_key(),
                rows: Seq::empty(),
            },
        )
    } else {
        table
    }
}

/// What a server holds after several statements, in order.
pub open spec fn after_statements(sqls: Seq<Seq<char>>, table: Option<Table>) -> Option<Table>
    decreases sqls.len(),
{
    if sqls.len() == 0 {
        table
    } else {
        after_statement(sqls.last(), after_statements(sqls.drop_last(), table))
    }
}

/// Whether two tables differ in their rows at most.
pub open spec fn same_but_for_rows(table: Option<Table>, other: Option<Table>) -> bool {
    match (table, other) {
        (Some(a), Some(b)) => a.columns == b.columns && a.primary_key == b.primary_key,
        (None, None) => true,
        _ => false,
    }
}

/// What a server holds after the statements of each step.
proof fn lemma_after_step(step: SchemaStep, table: Option<Table>)
    ensures
        after_statements(database::step_statements(step), table) == match step {
            SchemaStep::Create => after_statement(database::CREATE_TABLE_SQL@, table),
            SchemaStep::Recreate => after_statement(database::CREATE_TABLE_SQL@, None),
            _ => table,
        },
{
    let sqls = database::step_statements(step);
    statements::lemma_first_letters();
    statements::law_created_table_is_expected();
    reveal_with_fuel(after_statements, 3);
    if sqls.len() == 2 {
        assert(sqls.drop_last() == seq![sqls[0]]);
        assert(seq![sqls[0]].drop_last() == Seq::<Seq<char>>::empty());
    } else if sqls.len() == 1 {
        assert(sqls.drop_last() == Seq::<Seq<char>>::empty());
    }
}

proof fn lemma_after_more(first: Seq<Seq<char>>, second: Seq<Seq<char>>, table: Option<Table>)
    ensures
        after_statements(first + second, table) == after_statements(
            second,
            after_statements(first, table),
        ),
    decreases second.len(),
{
    if second.len() == 0 {
        assert(first + second == first);
    } else {
        lemma_after_more(first, second.drop_last(), table);
        assert((first + second).drop_last() == first + second.drop_last());
    }
}

/// What a server holds in the end is what the step that settles the schema makes of it.
proof fn lemma_after_settling(table: Option<Table>, exists: bool, description: SchemaEvent)
    ensures
        after_statements(sent(exists, description), table) == after_statements(
            database::step_statements(settled(exists, description)),
            table,
        ),
{
    let asked = database::step_statements(SchemaStep::CheckTable);
    let next = database::schema_step(SchemaEvent::TableChecked(exists));
    let described = database::step_statements(next);
    lemma_after_step(SchemaStep::CheckTable, table);
    lemma_after_step(next, table);
    lemma_after_more(asked, described, table);
    if next == SchemaStep::DescribeTable {
        lemma_after_more(
            asked + described,
            database::step_statements(database::schema_step(description)),
            table,
        );
    } else {
        assert(asked + described + Seq::<Seq<char>>::empty() == asked + described);
    }
}

/// The table is as it is to be once the schema is settled, and a table that already was is
/// left with its rows.
pub proof fn law_settled_table_is_as_expected(
    table: Option<Table>,
    exists: bool,
    description: SchemaEvent,
)
    requires
        answers(table, exists, description),
    ensures
        ({
            let after = after_statements(sent(exists, description), table);
            &&& after is Some
            &&& after->0.columns == database::expected_columns()
            &&& after->0.primary_key == database::expected_primary_key()
            &&& table is Some && table->0.columns == database::expected_columns()
                && table->0.primary_key == database::expected_primary_key() ==> after == table
        }),
{
    lemma_after_settling(table, exists, description);
    lemma_after_step(settled(exists, description), table);
    statements::lemma_first_letters();
    statements::law_created_table_is_expected();
}

/// Settling the schema again, when nothing but rows has changed since, sends three questions
/// and changes nothing: every row is still there.
pub proof fn law_settling_again_changes_nothing(
    table: Option<Table>,
    exists: bool,
    description: SchemaEvent,
    later: Option<Table>,
    exists_later: bool,
    description_later: SchemaEvent,
)
    requires
        answers(table, exists, description),
        same_but_for_rows(after_statements(sent(exists, description), table), later),
        answers(later, exists_later, description_later),
    ensures
        settled(exists_later, description_later) == SchemaStep::Keep,
        sent(exists_later, description_later) == seq![
            database::TABLE_EXISTS_SQL@,
            database::COLUMNS_SQL@,
            database::PRIMARY_KEY_SQL@,
        ],
        after_statements(sent(exists_later, description_later), later) == later,
{
    law_settled_table_is_as_expected(table, exists, description);
    law_settled_table_is_as_expected(later, exists_later, description_later);
}

/// The server's certificate and its name are either both looked at or both not; they are not
/// if and only if the URL's mode prefers or requires encryption.
pub proof fn law_certificate_unchecked_when_encrypting(mode: SslMode)
    ensures
        database::policy_for(mode).accept_invalid_certs <==> database::policy_for(
            mode,
        ).accept_invalid_hostnames,
        database::policy_for(mode).accept_invalid_certs <==> mode == SslMode::Prefer || mode
            == SslMode::Require,
{
}

/// A batch becomes one row for each proxy, in order, and each field of a row is that field of its
/// proxy, also where it is empty.
pub proof fn law_batch_rows(proxies: &[ProxyData], rows: Vec<ProxyRow>, i: int)
    requires
        call_ensures(database::batch_rows, (proxies,), rows),
        0 <= i < proxies@.len(),
    ensures
        rows@.len() == proxies@.len(),
        rows@[i].ip@ == proxies@[i].ip@,
        rows@[i].port == proxies@[i].port,
        rows@[i].country_code@ == proxies@[i].country_code@,
        rows@[i].country_name@ == proxies@[i].country_name@,
        rows@[i].city_code@ == proxies@[i].city_code@,
        rows@[i].city_name@ == proxies@[i].city_name@,
        rows@[i].asn_number@ == proxies@[i].asn_number@,
        rows@[i].org_name@ == proxies@[i].org_name@,
{
    assert(database::row_of(rows@[i], proxies@[i]));
}

/// No proxies make no rows.
pub proof fn law_no_rows(proxies: &[ProxyData], rows: Vec<ProxyRow>)
    requires
        call_ensures(database::batch_rows, (proxies,), rows),
        proxies@.len() == 0,
    ensures
        rows@.len() == 0,
{
}

/// The columns of the table: name, type and whether they may be null.
pub open spec fn the_columns() -> Seq<(Seq<char>, Seq<char>, bool)> {
    seq![
        ("ip"@, "text"@, false),
        ("port"@, "integer"@, false),
        ("country_code"@, "text"@, true),
        ("country_name"@, "text"@, true),
        ("city_code"@, "text"@, true),
        ("city_name"@, "text"@, true),
        ("asn_number"@, "text"@, true),
        ("org_name"@, "text"@, true),
        ("updated_at"@, "timestamp with time zone"@, false),
    ]
}

/// A table is as it is to be if and only if it has these nine columns and the key of address and
/// port, in this order.
pub proof fn law_is_expected_proxies_schema(
    columns: &[(String, String, bool)],
    primary_key: &[String],
    r: bool,
)
    requires
        call_ensures(database::is_expected_proxies_schema, (columns, primary_key), r),
    ensures
        r <==> {
            &&& columns@.len() == 9
            &&& forall|i: int|
                0 <= i < 9 ==> (#[trigger] columns@[i]).0@ == the_columns()[i].0 && columns@[i].1@
                    == the_columns()[i].1 && columns@[i].2 == the_columns()[i].2
            &&& primary_key@.len() == 2
            &&& primary_key@[0]@ == "ip"@
            &&& primary_key@[1]@ == "port"@
        },
{
    let texts_of = database::column_texts(columns@);
    let key = text::texts(primary_key@);
    assert(database::expected_columns() =~= the_columns());
    assert(database::expected_primary_key() =~= seq!["ip"@, "port"@]);
    if r {
        assert forall|i: int| 0 <= i < 9 implies (#[trigger] columns@[i]).0@ == the_columns()[i].0
            && columns@[i].1@ == the_columns()[i].1 && columns@[i].2 == the_columns()[i].2 by {
            assert(texts_of[i] == the_columns()[i]);
        }
        assert(key[0] == primary_key@[0]@ && key[1] == primary_key@[1]@);
    }
    if {
        &&& columns@.len() == 9
        &&& forall|i: int|
            0 <= i < 9 ==> (#[trigger] columns@[i]).0@ == the_columns()[i].0 && columns@[i].1@
                == the_columns()[i].1 && columns@[i].2 == the_columns()[i].2
        &&& primary_key@.len() == 2
        &&& primary_key@[0]@ == "ip"@
        &&& primary_key@[1]@ == "port"@
    } {
        assert forall|i: int| 0 <= i < 9 implies texts_of[i] == the_columns()[i] by {
            assert(columns@[i].0@ == the_columns()[i].0);
        }
        assert(texts_of =~= the_columns());
        assert(key =~= seq!["ip"@, "port"@]);
    }
}

/// A row of the answer names the column and its type, and says that it may be null if and only if
/// the last field is `YES`.
pub proof fn law_column_of_row(
    name: String,
    data_type: String,
    is_nullable: &str,
    r: (String, String, bool),
)
    requires
        call_ensures(database::column_of_row, (name, data_type, is_nullable), r),
    ensures
        r.0@ == name@,
        r.1@ == data_type@,
        r.2 <==> is_nullable@ == seq!['Y', 'E', 'S'],
{
    reveal_strlit("YES");
    assert("YES"@ =~= seq!['Y', 'E', 'S']);
}

/// First the table is asked for; one that does not exist is created; one that does is described,
/// and then kept if and only if it is as it is to be, else recreated.
pub proof fn law_next_schema_step(
    event: &SchemaEvent,
    r: SchemaStep,
    columns: &[(String, String, bool)],
    primary_key: &[String],
    expected: bool,
)
    requires
        call_ensures(database::next_schema_step, (event,), r),
        *event is Described ==> columns@ == event->columns@ && primary_key@
            == event->primary_key@,
        call_ensures(database::is_expected_proxies_schema, (columns, primary_key), expected),
    ensures
        *event is Start ==> r == SchemaStep::CheckTable,
        *event == SchemaEvent::TableChecked(false) ==> r == SchemaStep::Create,
        *event == SchemaEvent::TableChecked(true) ==> r == SchemaStep::DescribeTable,
        *event is Described && expected ==> r == SchemaStep::Keep,
        *event is Described && !expected ==> r == SchemaStep::Recreate,
{
}

/// The statements of a step: one question whether the table exists, two that describe it, none to
/// keep it, its creation, and before that its removal where it is recreated.
pub proof fn law_statements(step: SchemaStep, r: Vec<&'static str>)
    requires
        call_ensures(database::statements, (step,), r),
    ensures
        step == SchemaStep::CheckTable ==> r@.len() == 1 && r@[0]@ == database::TABLE_EXISTS_SQL@,
        step == SchemaStep::DescribeTable ==> r@.len() == 2 && r@[0]@ == database::COLUMNS_SQL@
            && r@[1]@ == database::PRIMARY_KEY_SQL@,
        step == SchemaStep::Keep ==> r@.len() == 0,
        step == SchemaStep::Create ==> r@.len() == 1 && r@[0]@ == database::CREATE_TABLE_SQL@,
        step == SchemaStep::Recreate ==> r@.len() == 2 && r@[0]@ == database::DROP_TABLE_SQL@
            && r@[1]@ == database::CREATE_TABLE_SQL@,
{
    let sent = Seq::new(r@.len(), |i: int| r@[i]@);
    assert(sent.len() == r@.len());
    if r@.len() > 0 {
        assert(sent[0] == r@[0]@);
    }
    if r@.len() > 1 {
        assert(sent[1] == r@[1]@);
    }
}

/// The URL of the database is the variable as it stands; a variable that is empty or not there is
/// refused.
pub proof fn law_database_url(variable: Option<String>, r: Result<String, SettingError>)
    requires
        call_ensures(database::database_url, (variable,), r),
    ensures
        r is Ok <==> variable is Some && variable->0@.len() > 0,
        r is Ok ==> r->Ok_0@ == variable->0@,
        r is Err ==> (r->Err_0 == SettingError::NotSet <==> variable is None),
{
}

/// What is shown of a URL is how it starts: all of it, or twenty characters of a longer one.
pub proof fn law_url_preview(url: &str, r: String)
    requires
        call_ensures(database::url_preview, (url,), r),
    ensures
        r@.is_prefix_of(url@),
        url@.len() <= 20 ==> r@ == url@,
        url@.len() > 20 ==> r@.len() == 20,
{
    assert(r@ =~= url@.subrange(0, r@.len() as int));
}

/// A URL that can be read decides what is taken without proof: certificate and name of the server
/// if its mode prefers or requires encryption, else neither. One that cannot is refused with the
/// reason.
pub proof fn law_pg_tls_policy(url: &str, r: Result<TlsPolicy, UrlError>)
    requires
        call_ensures(database::pg_tls_policy, (url,), r),
    ensures
        match database::ssl_mode(url@) {
            Ok(mode) => {
                &&& r is Ok
                &&& r->Ok_0.accept_invalid_certs <==> mode is Prefer || mode is Require
                &&& r->Ok_0.accept_invalid_hostnames <==> mode is Prefer || mode is Require
            },
            Err(reason) => r is Err && r->Err_0->Unreadable_0 == reason,
        },
{
}

/// A mode decides what is taken without proof: certificate and name of the server if it prefers or
/// requires encryption, else neither.
pub proof fn law_tls_policy(mode: SslMode, r: TlsPolicy)
    requires
        call_ensures(database::tls_policy, (mode,), r),
    ensures
        r.accept_invalid_certs <==> mode is Prefer || mode is Require,
        r.accept_invalid_hostnames <==> mode is Prefer || mode is Require,
{
}

} // verus!
