//! SQL text generation: layer DDL helpers and the spatial-index extension —
//! its virtual table, its bulk-load statement, and its seven maintenance
//! triggers. Every function's contract gives the emitted text exactly, as a
//! concatenation of its pieces.
//!
//! Identifiers are interpolated with simple quoting only; callers supply safe
//! identifiers.

use vstd::prelude::*;
use vstd::string::StringExecFns;

verus! {

/// The decimal digit `d` as text.
pub open spec fn spec_digit(d: int) -> Seq<char> {
    if d == 0 {
        "0"@
    } else if d == 1 {
        "1"@
    } else if d == 2 {
        "2"@
    } else if d == 3 {
        "3"@
    } else if d == 4 {
        "4"@
    } else if d == 5 {
        "5"@
    } else if d == 6 {
        "6"@
    } else if d == 7 {
        "7"@
    } else if d == 8 {
        "8"@
    } else {
        "9"@
    }
}

/// The decimal rendering of a non-negative number, no leading zeros.
pub open spec fn spec_decimal(n: int) -> Seq<char>
    recommends
        n >= 0,
    decreases n,
{
    if n < 10 {
        spec_digit(n)
    } else {
        spec_decimal(n / 10) + spec_digit(n % 10)
    }
}

fn digit_str(d: u32) -> (r: &'static str)
    requires
        d < 10,
    ensures
        r@ == spec_digit(d as int),
{
    match d {
        0 => "0",
        1 => "1",
        2 => "2",
        3 => "3",
        4 => "4",
        5 => "5",
        6 => "6",
        7 => "7",
        8 => "8",
        _ => "9",
    }
}

/// Renders a number in decimal.
pub fn u32_to_decimal(n: u32) -> (r: String)
    ensures
        r@ == spec_decimal(n as int),
    decreases n,
{
    if n < 10 {
        digit_str(n).to_owned()
    } else {
        let mut s = u32_to_decimal(n / 10);
        s.append(digit_str(n % 10));
        s
    }
}

/// An identifier in double quotes.
pub open spec fn spec_quoted(name: Seq<char>) -> Seq<char> {
    "\""@ + name + "\""@
}

/// The text of `CREATE TABLE "<layer>" (<column definitions>)`.
pub open spec fn spec_create_table_sql(layer_name: Seq<char>, column_defs: Seq<char>) -> Seq<
    char,
> {
    "CREATE TABLE "@ + spec_quoted(layer_name) + " ("@ + column_defs + ")"@
}

/// Emits the statement creating a layer's table.
pub fn sql_create_table(layer_name: &str, column_defs: &str) -> (r: String)
    ensures
        r@ == spec_create_table_sql(layer_name@, column_defs@),
{
    let mut s = "CREATE TABLE ".to_owned();
    s.append("\"");
    s.append(layer_name);
    s.append("\"");
    s.append(" (");
    s.append(column_defs);
    s.append(")");
    proof {
        assert(s@ =~= spec_create_table_sql(layer_name@, column_defs@));
    }
    s
}

/// The text of `DROP TABLE "<layer>"`.
pub open spec fn spec_drop_table_sql(layer_name: Seq<char>) -> Seq<char> {
    "DROP TABLE "@ + spec_quoted(layer_name)
}

/// Emits the statement dropping a layer's table.
pub fn sql_drop_table(layer_name: &str) -> (r: String)
    ensures
        r@ == spec_drop_table_sql(layer_name@),
{
    let mut s = "DROP TABLE ".to_owned();
    s.append("\"");
    s.append(layer_name);
    s.append("\"");
    proof {
        assert(s@ =~= spec_drop_table_sql(layer_name@));
    }
    s
}

/// The text of the pragma query listing a table's columns.
pub open spec fn spec_table_columns_sql(layer_name: Seq<char>) -> Seq<char> {
    "SELECT name, type, pk FROM pragma_table_info('"@ + layer_name + "')"@
}

/// Emits the query resolving a layer's column names, types and primary key.
pub fn sql_table_columns(layer_name: &str) -> (r: String)
    ensures
        r@ == spec_table_columns_sql(layer_name@),
{
    let mut s = "SELECT name, type, pk FROM pragma_table_info('".to_owned();
    s.append(layer_name);
    s.append("')");
    proof {
        assert(s@ =~= spec_table_columns_sql(layer_name@));
    }
    s
}

/// The text of `DELETE FROM "<layer>"`.
pub open spec fn spec_delete_all_sql(layer_name: Seq<char>) -> Seq<char> {
    "DELETE FROM "@ + spec_quoted(layer_name)
}

/// Emits the statement removing every row of a layer.
pub fn sql_delete_all(layer_name: &str) -> (r: String)
    ensures
        r@ == spec_delete_all_sql(layer_name@),
{
    let mut s = "DELETE FROM ".to_owned();
    s.append("\"");
    s.append(layer_name);
    s.append("\"");
    proof {
        assert(s@ =~= spec_delete_all_sql(layer_name@));
    }
    s
}

/// The text of `INSERT INTO "<layer>" (<columns>) VALUES (<values>)`.
pub open spec fn spec_insert_feature_sql(
    layer_name: Seq<char>,
    columns: Seq<char>,
    values: Seq<char>,
) -> Seq<char> {
    "INSERT INTO "@ + spec_quoted(layer_name) + " ("@ + columns + ") VALUES ("@ + values + ")"@
}

/// Emits the statement inserting one feature row.
pub fn sql_insert_feature(layer_name: &str, columns: &str, values: &str) -> (r: String)
    ensures
        r@ == spec_insert_feature_sql(layer_name@, columns@, values@),
{
    let mut s = "INSERT INTO ".to_owned();
    s.append("\"");
    s.append(layer_name);
    s.append("\"");
    s.append(" (");
    s.append(columns);
    s.append(") VALUES (");
    s.append(values);
    s.append(")");
    proof {
        assert(s@ =~= spec_insert_feature_sql(layer_name@, columns@, values@));
    }
    s
}

/// The quoted column names joined with `, `.
pub open spec fn spec_joined_columns(cols: Seq<String>) -> Seq<char>
    decreases cols.len(),
{
    if cols.len() == 0 {
        Seq::empty()
    } else if cols.len() == 1 {
        spec_quoted(cols[0]@)
    } else {
        spec_joined_columns(cols.drop_last()) + ", "@ + spec_quoted(cols.last()@)
    }
}

/// The select column list: the geometry column, the primary key column, then
/// the property columns, each in quotes.
pub open spec fn spec_select_columns(
    geometry_column: Seq<char>,
    primary_key_column: Seq<char>,
    other_columns: Seq<String>,
) -> Seq<char> {
    if other_columns.len() == 0 {
        spec_quoted(geometry_column) + ", "@ + spec_quoted(primary_key_column)
    } else {
        spec_quoted(geometry_column) + ", "@ + spec_quoted(primary_key_column) + ", "@
            + spec_joined_columns(other_columns)
    }
}

/// The trailing limit clause: `LIMIT <n> OFFSET ?`, or nothing.
pub open spec fn spec_limit_clause(limit: Option<u32>) -> Seq<char> {
    match limit {
        Some(n) => "LIMIT "@ + spec_decimal(n as int) + " OFFSET ?"@,
        None => Seq::empty(),
    }
}

/// The feature select statement: geometry and primary key first, then the
/// property columns, ordered by the primary key, with an optional paging
/// clause (a single space always precedes the clause position).
pub open spec fn spec_select_features_sql(
    layer_name: Seq<char>,
    geometry_column: Seq<char>,
    primary_key_column: Seq<char>,
    other_columns: Seq<String>,
    limit: Option<u32>,
) -> Seq<char> {
    "SELECT "@ + spec_select_columns(geometry_column, primary_key_column, other_columns)
        + " FROM "@ + spec_quoted(layer_name) + " ORDER BY "@ + spec_quoted(primary_key_column)
        + " "@ + spec_limit_clause(limit)
}

/// Emits the query selecting a layer's features in primary key order.
pub fn sql_select_features(
    layer_name: &str,
    geometry_column: &str,
    primary_key_column: &str,
    other_columns: &Vec<String>,
    limit: Option<u32>,
) -> (r: String)
    ensures
        r@ == spec_select_features_sql(
            layer_name@,
            geometry_column@,
            primary_key_column@,
            other_columns@,
            limit,
        ),
{
    let mut s = "SELECT ".to_owned();
    s.append("\"");
    s.append(geometry_column);
    s.append("\"");
    s.append(", ");
    s.append("\"");
    s.append(primary_key_column);
    s.append("\"");
    proof {
        assert(s@ =~= "SELECT "@ + spec_quoted(geometry_column@) + ", "@ + spec_quoted(
            primary_key_column@,
        ));
    }
    let ghost head = "SELECT "@ + spec_quoted(geometry_column@) + ", "@ + spec_quoted(
        primary_key_column@,
    );
    let mut i: usize = 0;
    while i < other_columns.len()
        invariant
            i <= other_columns@.len(),
            head == "SELECT "@ + spec_quoted(geometry_column@) + ", "@ + spec_quoted(
                primary_key_column@,
            ),
            i == 0 ==> s@ == head,
            i > 0 ==> s@ == head + ", "@ + spec_joined_columns(other_columns@.take(i as int)),
        decreases other_columns@.len() - i,
    {
        s.append(", ");
        s.append("\"");
        s.append(other_columns[i].as_str());
        s.append("\"");
        proof {
            if i == 0 {
                assert(other_columns@.take(1).len() == 1);
                assert(other_columns@.take(1)[0] == other_columns@[0]);
            } else {
                assert(other_columns@.take(i as int + 1).drop_last() =~= other_columns@.take(
                    i as int,
                ));
                assert(other_columns@.take(i as int + 1).last() == other_columns@[i as int]);
                assert(other_columns@.take(i as int + 1).len() == i as int + 1);
            }
            assert(s@ =~= head + ", "@ + spec_joined_columns(other_columns@.take(i as int + 1)));
        }
        i = i + 1;
    }
    proof {
        assert(other_columns@.take(other_columns@.len() as int) =~= other_columns@);
        assert(s@ =~= "SELECT "@ + spec_select_columns(
            geometry_column@,
            primary_key_column@,
            other_columns@,
        ));
    }
    s.append(" FROM ");
    s.append("\"");
    s.append(layer_name);
    s.append("\"");
    s.append(" ORDER BY ");
    s.append("\"");
    s.append(primary_key_column);
    s.append("\"");
    s.append(" ");
    match limit {
        Some(n) => {
            s.append("LIMIT ");
            let d = u32_to_decimal(n);
            s.append(d.as_str());
            s.append(" OFFSET ?");
        },
        None => {},
    }
    proof {
        assert(s@ =~= spec_select_features_sql(
            layer_name@,
            geometry_column@,
            primary_key_column@,
            other_columns@,
            limit,
        ));
    }
    s
}

/// The name of the index's virtual table: `rtree_<table>_<geometry column>`.
pub open spec fn spec_rtree_name(table: Seq<char>, geom_column: Seq<char>) -> Seq<char> {
    "rtree_"@ + table + "_"@ + geom_column
}

fn append_rtree_name(s: &mut String, table: &str, geom_column: &str)
    ensures
        final(s)@ == old(s)@ + spec_rtree_name(table@, geom_column@),
{
    s.append("rtree_");
    s.append(table);
    s.append("_");
    s.append(geom_column);
    proof {
        assert(final(s)@ =~= old(s)@ + spec_rtree_name(table@, geom_column@));
    }
}

/// The statement creating the index's five-column virtual table, keyed by id
/// with the four bounds.
pub open spec fn spec_rtree_create_sql(table: Seq<char>, geom_column: Seq<char>) -> Seq<char> {
    "CREATE VIRTUAL TABLE "@ + spec_rtree_name(table, geom_column)
        + " USING rtree(id, minx, maxx, miny, maxy);"@
}

/// Emits the statement creating the spatial index table for a layer.
pub fn gpkg_rtree_create_sql(table: &str, geom_column: &str) -> (r: String)
    ensures
        r@ == spec_rtree_create_sql(table@, geom_column@),
{
    let mut s = "CREATE VIRTUAL TABLE ".to_owned();
    append_rtree_name(&mut s, table, geom_column);
    s.append(" USING rtree(id, minx, maxx, miny, maxy);");
    proof {
        assert(s@ =~= spec_rtree_create_sql(table@, geom_column@));
    }
    s
}

/// The statement dropping the index's virtual table: the inverse of the
/// create statement, used on layer deletion.
pub open spec fn spec_rtree_drop_sql(table: Seq<char>, geom_column: Seq<char>) -> Seq<char> {
    "DROP TABLE "@ + spec_rtree_name(table, geom_column) + ";"@
}

/// Emits the statement dropping the spatial index table of a layer.
pub fn gpkg_rtree_drop_sql(table: &str, geom_column: &str) -> (r: String)
    ensures
        r@ == spec_rtree_drop_sql(table@, geom_column@),
{
    let mut s = "DROP TABLE ".to_owned();
    append_rtree_name(&mut s, table, geom_column);
    s.append(";");
    proof {
        assert(s@ =~= spec_rtree_drop_sql(table@, geom_column@));
    }
    s
}

/// The bulk-load statement: insert-or-replace, selecting every base row whose
/// geometry is present and not empty, with its id and four bounds.
pub open spec fn spec_rtree_load_sql(
    table: Seq<char>,
    geom_column: Seq<char>,
    id_column: Seq<char>,
) -> Seq<char> {
    "INSERT OR REPLACE INTO "@ + spec_rtree_name(table, geom_column) + "\n  SELECT "@ + id_column
        + ", ST_MinX("@ + geom_column + "), ST_MaxX("@ + geom_column + "), ST_MinY("@
        + geom_column + "), ST_MaxY("@ + geom_column + ")\n  FROM "@ + table + " WHERE "@
        + geom_column + " NOT NULL AND NOT ST_IsEmpty("@ + geom_column + ");"@
}

/// Emits the statement that loads the spatial index from the base table in
/// one pass. Keyed on id by insert-or-replace, so running it twice leaves the
/// index as running it once does.
pub fn gpkg_rtree_load_sql(table: &str, geom_column: &str, id_column: &str) -> (r: String)
    ensures
        r@ == spec_rtree_load_sql(table@, geom_column@, id_column@),
{
    let mut s = "INSERT OR REPLACE INTO ".to_owned();
    append_rtree_name(&mut s, table, geom_column);
    s.append("\n  SELECT ");
    s.append(id_column);
    s.append(", ST_MinX(");
    s.append(geom_column);
    s.append("), ST_MaxX(");
    s.append(geom_column);
    s.append("), ST_MinY(");
    s.append(geom_column);
    s.append("), ST_MaxY(");
    s.append(geom_column);
    s.append(")\n  FROM ");
    s.append(table);
    s.append(" WHERE ");
    s.append(geom_column);
    s.append(" NOT NULL AND NOT ST_IsEmpty(");
    s.append(geom_column);
    s.append(");");
    proof {
        assert(s@ =~= spec_rtree_load_sql(table@, geom_column@, id_column@));
    }
    s
}

/// The insert-or-replace block writing the new row's id and bounds, shared by
/// the triggers that (re)build an index row, followed by the trigger's end.
pub open spec fn spec_trigger_values_block(geom_column: Seq<char>, id_column: Seq<char>) -> Seq<
    char,
> {
    " VALUES (\n    NEW."@ + id_column + ",\n    ST_MinX(NEW."@ + geom_column
        + "), ST_MaxX(NEW."@ + geom_column + "),\n    ST_MinY(NEW."@ + geom_column
        + "), ST_MaxY(NEW."@ + geom_column + ")\n  );\nEND;"@
}

fn append_trigger_values_block(s: &mut String, geom_column: &str, id_column: &str)
    ensures
        final(s)@ == old(s)@ + spec_trigger_values_block(geom_column@, id_column@),
{
    s.append(" VALUES (\n    NEW.");
    s.append(id_column);
    s.append(",\n    ST_MinX(NEW.");
    s.append(geom_column);
    s.append("), ST_MaxX(NEW.");
    s.append(geom_column);
    s.append("),\n    ST_MinY(NEW.");
    s.append(geom_column);
    s.append("), ST_MaxY(NEW.");
    s.append(geom_column);
    s.append(")\n  );\nEND;");
    proof {
        assert(final(s)@ =~= old(s)@ + spec_trigger_values_block(geom_column@, id_column@));
    }
}

/// After insert, new geometry present and not empty: insert-or-replace the
/// new row's bounds.
pub open spec fn spec_rtree_trigger_insert_sql(
    table: Seq<char>,
    geom_column: Seq<char>,
    id_column: Seq<char>,
) -> Seq<char> {
    "CREATE TRIGGER "@ + spec_rtree_name(table, geom_column) + "_insert AFTER INSERT ON "@
        + table + "\n  WHEN (new."@ + geom_column + " NOT NULL AND NOT ST_IsEmpty(NEW."@
        + geom_column + "))\nBEGIN\n  INSERT OR REPLACE INTO "@ + spec_rtree_name(
        table,
        geom_column,
    ) + spec_trigger_values_block(geom_column, id_column)
}

/// Emits the after-insert trigger.
pub fn gpkg_rtree_trigger_insert_sql(table: &str, geom_column: &str, id_column: &str) -> (r:
    String)
    ensures
        r@ == spec_rtree_trigger_insert_sql(table@, geom_column@, id_column@),
{
    let mut s = "CREATE TRIGGER ".to_owned();
    append_rtree_name(&mut s, table, geom_column);
    s.append("_insert AFTER INSERT ON ");
    s.append(table);
    s.append("\n  WHEN (new.");
    s.append(geom_column);
    s.append(" NOT NULL AND NOT ST_IsEmpty(NEW.");
    s.append(geom_column);
    s.append("))\nBEGIN\n  INSERT OR REPLACE INTO ");
    append_rtree_name(&mut s, table, geom_column);
    append_trigger_values_block(&mut s, geom_column, id_column);
    proof {
        assert(s@ =~= spec_rtree_trigger_insert_sql(table@, geom_column@, id_column@));
    }
    s
}

/// After update of the geometry column, same id, new geometry null or empty:
/// delete the row's index entry.
pub open spec fn spec_rtree_trigger_update2_sql(
    table: Seq<char>,
    geom_column: Seq<char>,
    id_column: Seq<char>,
) -> Seq<char> {
    "CREATE TRIGGER "@ + spec_rtree_name(table, geom_column) + "_update2 AFTER UPDATE OF "@
        + geom_column + " ON "@ + table + "\n  WHEN OLD."@ + id_column + " = NEW."@ + id_column
        + " AND\n       (NEW."@ + geom_column + " ISNULL OR ST_IsEmpty(NEW."@ + geom_column
        + "))\nBEGIN\n  DELETE FROM "@ + spec_rtree_name(table, geom_column)
        + " WHERE id = OLD."@ + id_column + ";\nEND;"@
}

/// Emits the after-update trigger for a same-id update whose new geometry no
/// longer qualifies.
pub fn gpkg_rtree_trigger_update2_sql(table: &str, geom_column: &str, id_column: &str) -> (r:
    String)
    ensures
        r@ == spec_rtree_trigger_update2_sql(table@, geom_column@, id_column@),
{
    let mut s = "CREATE TRIGGER ".to_owned();
    append_rtree_name(&mut s, table, geom_column);
    s.append("_update2 AFTER UPDATE OF ");
    s.append(geom_column);
    s.append(" ON ");
    s.append(table);
    s.append("\n  WHEN OLD.");
    s.append(id_column);
    s.append(" = NEW.");
    s.append(id_column);
    s.append(" AND\n       (NEW.");
    s.append(geom_column);
    s.append(" ISNULL OR ST_IsEmpty(NEW.");
    s.append(geom_column);
    s.append("))\nBEGIN\n  DELETE FROM ");
    append_rtree_name(&mut s, table, geom_column);
    s.append(" WHERE id = OLD.");
    s.append(id_column);
    s.append(";\nEND;");
    proof {
        assert(s@ =~= spec_rtree_trigger_update2_sql(table@, geom_column@, id_column@));
    }
    s
}

/// After any update, id changed, new geometry null or empty: delete the index
/// rows of both ids (the new id should not have one; deleting it is
/// defensive).
pub open spec fn spec_rtree_trigger_update4_sql(
    table: Seq<char>,
    geom_column: Seq<char>,
    id_column: Seq<char>,
) -> Seq<char> {
    "CREATE TRIGGER "@ + spec_rtree_name(table, geom_column) + "_update4 AFTER UPDATE ON "@
        + table + "\n  WHEN OLD."@ + id_column + " != NEW."@ + id_column + " AND\n       (NEW."@
        + geom_column + " ISNULL OR ST_IsEmpty(NEW."@ + geom_column
        + "))\nBEGIN\n  DELETE FROM "@ + spec_rtree_name(table, geom_column)
        + " WHERE id IN (OLD."@ + id_column + ", NEW."@ + id_column + ");\nEND;"@
}

/// Emits the after-update trigger for an id change whose new geometry does
/// not qualify.
pub fn gpkg_rtree_trigger_update4_sql(table: &str, geom_column: &str, id_column: &str) -> (r:
    String)
    ensures
        r@ == spec_rtree_trigger_update4_sql(table@, geom_column@, id_column@),
{
    let mut s = "CREATE TRIGGER ".to_owned();
    append_rtree_name(&mut s, table, geom_column);
    s.append("_update4 AFTER UPDATE ON ");
    s.append(table);
    s.append("\n  WHEN OLD.");
    s.append(id_column);
    s.append(" != NEW.");
    s.append(id_column);
    s.append(" AND\n       (NEW.");
    s.append(geom_column);
    s.append(" ISNULL OR ST_IsEmpty(NEW.");
    s.append(geom_column);
    s.append("))\nBEGIN\n  DELETE FROM ");
    append_rtree_name(&mut s, table, geom_column);
    s.append(" WHERE id IN (OLD.");
    s.append(id_column);
    s.append(", NEW.");
    s.append(id_column);
    s.append(");\nEND;");
    proof {
        assert(s@ =~= spec_rtree_trigger_update4_sql(table@, geom_column@, id_column@));
    }
    s
}

/// After any update, id changed, new geometry qualifying: delete the old id's
/// index row, insert-or-replace the new id's.
pub open spec fn spec_rtree_trigger_update5_sql(
    table: Seq<char>,
    geom_column: Seq<char>,
    id_column: Seq<char>,
) -> Seq<char> {
    "CREATE TRIGGER "@ + spec_rtree_name(table, geom_column) + "_update5 AFTER UPDATE ON "@
        + table + "\n  WHEN OLD."@ + id_column + " != NEW."@ + id_column + " AND\n       (NEW."@
        + geom_column + " NOTNULL AND NOT ST_IsEmpty(NEW."@ + geom_column
        + "))\nBEGIN\n  DELETE FROM "@ + spec_rtree_name(table, geom_column)
        + " WHERE id = OLD."@ + id_column + ";\n  INSERT OR REPLACE INTO "@ + spec_rtree_name(
        table,
        geom_column,
    ) + spec_trigger_values_block(geom_column, id_column)
}

/// Emits the after-update trigger for an id change whose new geometry
/// qualifies: the index row's key is swapped.
pub fn gpkg_rtree_trigger_update5_sql(table: &str, geom_column: &str, id_column: &str) -> (r:
    String)
    ensures
        r@ == spec_rtree_trigger_update5_sql(table@, geom_column@, id_column@),
{
    let mut s = "CREATE TRIGGER ".to_owned();
    append_rtree_name(&mut s, table, geom_column);
    s.append("_update5 AFTER UPDATE ON ");
    s.append(table);
    s.append("\n  WHEN OLD.");
    s.append(id_column);
    s.append(" != NEW.");
    s.append(id_column);
    s.append(" AND\n       (NEW.");
    s.append(geom_column);
    s.append(" NOTNULL AND NOT ST_IsEmpty(NEW.");
    s.append(geom_column);
    s.append("))\nBEGIN\n  DELETE FROM ");
    append_rtree_name(&mut s, table, geom_column);
    s.append(" WHERE id = OLD.");
    s.append(id_column);
    s.append(";\n  INSERT OR REPLACE INTO ");
    append_rtree_name(&mut s, table, geom_column);
    append_trigger_values_block(&mut s, geom_column, id_column);
    proof {
        assert(s@ =~= spec_rtree_trigger_update5_sql(table@, geom_column@, id_column@));
    }
    s
}

/// After update of the geometry column, same id, both old and new geometry
/// qualifying: update the bounds in place, with no delete/insert churn.
pub open spec fn spec_rtree_trigger_update6_sql(
    table: Seq<char>,
    geom_column: Seq<char>,
    id_column: Seq<char>,
) -> Seq<char> {
    "CREATE TRIGGER "@ + spec_rtree_name(table, geom_column) + "_update6 AFTER UPDATE OF "@
        + geom_column + " ON "@ + table + "\n  WHEN OLD."@ + id_column + " = NEW."@ + id_column
        + " AND\n       (NEW."@ + geom_column + " NOTNULL AND NOT ST_IsEmpty(NEW."@ + geom_column
        + ")) AND\n       (OLD."@ + geom_column + " NOTNULL AND NOT ST_IsEmpty(OLD."@
        + geom_column + "))\nBEGIN\n  UPDATE "@ + spec_rtree_name(table, geom_column)
        + " SET\n    minx = ST_MinX(NEW."@ + geom_column + "),\n    maxx = ST_MaxX(NEW."@
        + geom_column + "),\n    miny = ST_MinY(NEW."@ + geom_column
        + "),\n    maxy = ST_MaxY(NEW."@ + geom_column + ")\n  WHERE id = NEW."@ + id_column
        + ";\nEND;"@
}

/// Emits the after-update trigger for a same-id update where both geometries
/// qualify.
pub fn gpkg_rtree_trigger_update6_sql(table: &str, geom_column: &str, id_column: &str) -> (r:
    String)
    ensures
        r@ == spec_rtree_trigger_update6_sql(table@, geom_column@, id_column@),
{
    let mut s = "CREATE TRIGGER ".to_owned();
    append_rtree_name(&mut s, table, geom_column);
    s.append("_update6 AFTER UPDATE OF ");
    s.append(geom_column);
    s.append(" ON ");
    s.append(table);
    s.append("\n  WHEN OLD.");
    s.append(id_column);
    s.append(" = NEW.");
    s.append(id_column);
    s.append(" AND\n       (NEW.");
    s.append(geom_column);
    s.append(" NOTNULL AND NOT ST_IsEmpty(NEW.");
    s.append(geom_column);
    s.append(")) AND\n       (OLD.");
    s.append(geom_column);
    s.append(" NOTNULL AND NOT ST_IsEmpty(OLD.");
    s.append(geom_column);
    s.append("))\nBEGIN\n  UPDATE ");
    append_rtree_name(&mut s, table, geom_column);
    s.append(" SET\n    minx = ST_MinX(NEW.");
    s.append(geom_column);
    s.append("),\n    maxx = ST_MaxX(NEW.");
    s.append(geom_column);
    s.append("),\n    miny = ST_MinY(NEW.");
    s.append(geom_column);
    s.append("),\n    maxy = ST_MaxY(NEW.");
    s.append(geom_column);
    s.append(")\n  WHERE id = NEW.");
    s.append(id_column);
    s.append(";\nEND;");
    proof {
        assert(s@ =~= spec_rtree_trigger_update6_sql(table@, geom_column@, id_column@));
    }
    s
}

/// After update of the geometry column, same id, old geometry null or empty,
/// new geometry qualifying: insert the index row.
pub open spec fn spec_rtree_trigger_update7_sql(
    table: Seq<char>,
    geom_column: Seq<char>,
    id_column: Seq<char>,
) -> Seq<char> {
    "CREATE TRIGGER "@ + spec_rtree_name(table, geom_column) + "_update7 AFTER UPDATE OF "@
        + geom_column + " ON "@ + table + "\n  WHEN OLD."@ + id_column + " = NEW."@ + id_column
        + " AND\n       (NEW."@ + geom_column + " NOTNULL AND NOT ST_IsEmpty(NEW."@ + geom_column
        + ")) AND\n       (OLD."@ + geom_column + " ISNULL OR ST_IsEmpty(OLD."@ + geom_column
        + "))\nBEGIN\n  INSERT INTO "@ + spec_rtree_name(table, geom_column)
        + spec_trigger_values_block(geom_column, id_column)
}

/// Emits the after-update trigger for a same-id update where only the new
/// geometry qualifies.
pub fn gpkg_rtree_trigger_update7_sql(table: &str, geom_column: &str, id_column: &str) -> (r:
    String)
    ensures
        r@ == spec_rtree_trigger_update7_sql(table@, geom_column@, id_column@),
{
    let mut s = "CREATE TRIGGER ".to_owned();
    append_rtree_name(&mut s, table, geom_column);
    s.append("_update7 AFTER UPDATE OF ");
    s.append(geom_column);
    s.append(" ON ");
    s.append(table);
    s.append("\n  WHEN OLD.");
    s.append(id_column);
    s.append(" = NEW.");
    s.append(id_column);
    s.append(" AND\n       (NEW.");
    s.append(geom_column);
    s.append(" NOTNULL AND NOT ST_IsEmpty(NEW.");
    s.append(geom_column);
    s.append(")) AND\n       (OLD.");
    s.append(geom_column);
    s.append(" ISNULL OR ST_IsEmpty(OLD.");
    s.append(geom_column);
    s.append("))\nBEGIN\n  INSERT INTO ");
    append_rtree_name(&mut s, table, geom_column);
    append_trigger_values_block(&mut s, geom_column, id_column);
    proof {
        assert(s@ =~= spec_rtree_trigger_update7_sql(table@, geom_column@, id_column@));
    }
    s
}

/// After delete, old geometry not null: delete the old id's index row.
pub open spec fn spec_rtree_trigger_delete_sql(
    table: Seq<char>,
    geom_column: Seq<char>,
    id_column: Seq<char>,
) -> Seq<char> {
    "CREATE TRIGGER "@ + spec_rtree_name(table, geom_column) + "_delete AFTER DELETE ON "@
        + table + "\n  WHEN old."@ + geom_column + " NOT NULL\nBEGIN\n  DELETE FROM "@
        + spec_rtree_name(table, geom_column) + " WHERE id = OLD."@ + id_column + ";\nEND;"@
}

/// Emits the after-delete trigger.
pub fn gpkg_rtree_trigger_delete_sql(table: &str, geom_column: &str, id_column: &str) -> (r:
    String)
    ensures
        r@ == spec_rtree_trigger_delete_sql(table@, geom_column@, id_column@),
{
    let mut s = "CREATE TRIGGER ".to_owned();
    append_rtree_name(&mut s, table, geom_column);
    s.append("_delete AFTER DELETE ON ");
    s.append(table);
    s.append("\n  WHEN old.");
    s.append(geom_column);
    s.append(" NOT NULL\nBEGIN\n  DELETE FROM ");
    append_rtree_name(&mut s, table, geom_column);
    s.append(" WHERE id = OLD.");
    s.append(id_column);
    s.append(";\nEND;");
    proof {
        assert(s@ =~= spec_rtree_trigger_delete_sql(table@, geom_column@, id_column@));
    }
    s
}

/// The full trigger set: exactly the seven triggers, in order — insert, the
/// four update cases by id change and qualification, and delete — separated
/// by blank lines. Together they cover every transition of (id changed?, old
/// geometry qualifying?, new geometry qualifying?) reachable by INSERT,
/// UPDATE or DELETE.
pub open spec fn spec_rtree_triggers_sql(
    table: Seq<char>,
    geom_column: Seq<char>,
    id_column: Seq<char>,
) -> Seq<char> {
    spec_rtree_trigger_insert_sql(table, geom_column, id_column) + "\n\n"@
        + spec_rtree_trigger_update2_sql(table, geom_column, id_column) + "\n\n"@
        + spec_rtree_trigger_update4_sql(table, geom_column, id_column) + "\n\n"@
        + spec_rtree_trigger_update5_sql(table, geom_column, id_column) + "\n\n"@
        + spec_rtree_trigger_update6_sql(table, geom_column, id_column) + "\n\n"@
        + spec_rtree_trigger_update7_sql(table, geom_column, id_column) + "\n\n"@
        + spec_rtree_trigger_delete_sql(table, geom_column, id_column)
}

/// Emits the complete trigger set maintaining the spatial index of a layer.
pub fn gpkg_rtree_triggers_sql(table: &str, geom_column: &str, id_column: &str) -> (r: String)
    ensures
        r@ == spec_rtree_triggers_sql(table@, geom_column@, id_column@),
{
    let mut s = gpkg_rtree_trigger_insert_sql(table, geom_column, id_column);
    s.append("\n\n");
    let t2 = gpkg_rtree_trigger_update2_sql(table, geom_column, id_column);
    s.append(t2.as_str());
    s.append("\n\n");
    let t4 = gpkg_rtree_trigger_update4_sql(table, geom_column, id_column);
    s.append(t4.as_str());
    s.append("\n\n");
    let t5 = gpkg_rtree_trigger_update5_sql(table, geom_column, id_column);
    s.append(t5.as_str());
    s.append("\n\n");
    let t6 = gpkg_rtree_trigger_update6_sql(table, geom_column, id_column);
    s.append(t6.as_str());
    s.append("\n\n");
    let t7 = gpkg_rtree_trigger_update7_sql(table, geom_column, id_column);
    s.append(t7.as_str());
    s.append("\n\n");
    let td = gpkg_rtree_trigger_delete_sql(table, geom_column, id_column);
    s.append(td.as_str());
    proof {
        assert(s@ =~= spec_rtree_triggers_sql(table@, geom_column@, id_column@));
    }
    s
}

} // verus!
