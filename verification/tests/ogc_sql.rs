use rusqlite_gpkg::ogc_sql::{
    gpkg_rtree_create_sql, gpkg_rtree_drop_sql, gpkg_rtree_load_sql,
    gpkg_rtree_trigger_delete_sql, gpkg_rtree_trigger_insert_sql, gpkg_rtree_trigger_update2_sql,
    gpkg_rtree_trigger_update4_sql, gpkg_rtree_trigger_update5_sql,
    gpkg_rtree_trigger_update6_sql, gpkg_rtree_trigger_update7_sql, gpkg_rtree_triggers_sql,
    sql_create_table, sql_delete_all, sql_drop_table, sql_insert_feature, sql_select_features,
    sql_table_columns, u32_to_decimal,
};

#[test]
fn ddl_helpers_emit_exact_text() {
    assert_eq!(
        sql_create_table("points", "fid INTEGER PRIMARY KEY, \"geom\" BLOB"),
        "CREATE TABLE \"points\" (fid INTEGER PRIMARY KEY, \"geom\" BLOB)"
    );
    assert_eq!(sql_drop_table("points"), "DROP TABLE \"points\"");
    assert_eq!(
        sql_table_columns("points"),
        "SELECT name, type, pk FROM pragma_table_info('points')"
    );
    assert_eq!(sql_delete_all("points"), "DELETE FROM \"points\"");
    assert_eq!(
        sql_insert_feature("points", "\"geom\",\"name\"", "?1,?2"),
        "INSERT INTO \"points\" (\"geom\",\"name\") VALUES (?1,?2)"
    );
}

#[test]
fn select_features_lists_geometry_and_key_first() {
    let none: Vec<String> = Vec::new();
    assert_eq!(
        sql_select_features("points", "geom", "fid", &none, None),
        "SELECT \"geom\", \"fid\" FROM \"points\" ORDER BY \"fid\" "
    );

    let cols = vec!["name".to_string(), "value".to_string()];
    assert_eq!(
        sql_select_features("points", "geom", "fid", &cols, None),
        "SELECT \"geom\", \"fid\", \"name\", \"value\" FROM \"points\" ORDER BY \"fid\" "
    );
    assert_eq!(
        sql_select_features("points", "geom", "fid", &cols, Some(100)),
        "SELECT \"geom\", \"fid\", \"name\", \"value\" FROM \"points\" ORDER BY \"fid\" LIMIT 100 OFFSET ?"
    );
}

#[test]
fn decimal_rendering_has_no_leading_zeros() {
    assert_eq!(u32_to_decimal(0), "0");
    assert_eq!(u32_to_decimal(7), "7");
    assert_eq!(u32_to_decimal(10), "10");
    assert_eq!(u32_to_decimal(1024), "1024");
    assert_eq!(u32_to_decimal(u32::MAX), "4294967295");
}

#[test]
fn rtree_table_statements_emit_exact_text() {
    assert_eq!(
        gpkg_rtree_create_sql("points", "geom"),
        "CREATE VIRTUAL TABLE rtree_points_geom USING rtree(id, minx, maxx, miny, maxy);"
    );
    assert_eq!(
        gpkg_rtree_drop_sql("points", "geom"),
        "DROP TABLE rtree_points_geom;"
    );
    assert_eq!(
        gpkg_rtree_load_sql("points", "geom", "fid"),
        "INSERT OR REPLACE INTO rtree_points_geom\n  SELECT fid, ST_MinX(geom), ST_MaxX(geom), ST_MinY(geom), ST_MaxY(geom)\n  FROM points WHERE geom NOT NULL AND NOT ST_IsEmpty(geom);"
    );
}

#[test]
fn insert_trigger_upserts_qualifying_rows() {
    assert_eq!(
        gpkg_rtree_trigger_insert_sql("t", "g", "i"),
        "CREATE TRIGGER rtree_t_g_insert AFTER INSERT ON t\n  WHEN (new.g NOT NULL AND NOT ST_IsEmpty(NEW.g))\nBEGIN\n  INSERT OR REPLACE INTO rtree_t_g VALUES (\n    NEW.i,\n    ST_MinX(NEW.g), ST_MaxX(NEW.g),\n    ST_MinY(NEW.g), ST_MaxY(NEW.g)\n  );\nEND;"
    );
}

#[test]
fn update_triggers_cover_the_four_update_cases() {
    assert_eq!(
        gpkg_rtree_trigger_update2_sql("t", "g", "i"),
        "CREATE TRIGGER rtree_t_g_update2 AFTER UPDATE OF g ON t\n  WHEN OLD.i = NEW.i AND\n       (NEW.g ISNULL OR ST_IsEmpty(NEW.g))\nBEGIN\n  DELETE FROM rtree_t_g WHERE id = OLD.i;\nEND;"
    );
    assert_eq!(
        gpkg_rtree_trigger_update4_sql("t", "g", "i"),
        "CREATE TRIGGER rtree_t_g_update4 AFTER UPDATE ON t\n  WHEN OLD.i != NEW.i AND\n       (NEW.g ISNULL OR ST_IsEmpty(NEW.g))\nBEGIN\n  DELETE FROM rtree_t_g WHERE id IN (OLD.i, NEW.i);\nEND;"
    );
    assert_eq!(
        gpkg_rtree_trigger_update5_sql("t", "g", "i"),
        "CREATE TRIGGER rtree_t_g_update5 AFTER UPDATE ON t\n  WHEN OLD.i != NEW.i AND\n       (NEW.g NOTNULL AND NOT ST_IsEmpty(NEW.g))\nBEGIN\n  DELETE FROM rtree_t_g WHERE id = OLD.i;\n  INSERT OR REPLACE INTO rtree_t_g VALUES (\n    NEW.i,\n    ST_MinX(NEW.g), ST_MaxX(NEW.g),\n    ST_MinY(NEW.g), ST_MaxY(NEW.g)\n  );\nEND;"
    );
    assert_eq!(
        gpkg_rtree_trigger_update6_sql("t", "g", "i"),
        "CREATE TRIGGER rtree_t_g_update6 AFTER UPDATE OF g ON t\n  WHEN OLD.i = NEW.i AND\n       (NEW.g NOTNULL AND NOT ST_IsEmpty(NEW.g)) AND\n       (OLD.g NOTNULL AND NOT ST_IsEmpty(OLD.g))\nBEGIN\n  UPDATE rtree_t_g SET\n    minx = ST_MinX(NEW.g),\n    maxx = ST_MaxX(NEW.g),\n    miny = ST_MinY(NEW.g),\n    maxy = ST_MaxY(NEW.g)\n  WHERE id = NEW.i;\nEND;"
    );
    assert_eq!(
        gpkg_rtree_trigger_update7_sql("t", "g", "i"),
        "CREATE TRIGGER rtree_t_g_update7 AFTER UPDATE OF g ON t\n  WHEN OLD.i = NEW.i AND\n       (NEW.g NOTNULL AND NOT ST_IsEmpty(NEW.g)) AND\n       (OLD.g ISNULL OR ST_IsEmpty(OLD.g))\nBEGIN\n  INSERT INTO rtree_t_g VALUES (\n    NEW.i,\n    ST_MinX(NEW.g), ST_MaxX(NEW.g),\n    ST_MinY(NEW.g), ST_MaxY(NEW.g)\n  );\nEND;"
    );
}

#[test]
fn delete_trigger_drops_the_row_by_old_id() {
    assert_eq!(
        gpkg_rtree_trigger_delete_sql("t", "g", "i"),
        "CREATE TRIGGER rtree_t_g_delete AFTER DELETE ON t\n  WHEN old.g NOT NULL\nBEGIN\n  DELETE FROM rtree_t_g WHERE id = OLD.i;\nEND;"
    );
}

#[test]
fn trigger_set_holds_exactly_seven_triggers() {
    let all = gpkg_rtree_triggers_sql("t", "g", "i");
    let expected = [
        gpkg_rtree_trigger_insert_sql("t", "g", "i"),
        gpkg_rtree_trigger_update2_sql("t", "g", "i"),
        gpkg_rtree_trigger_update4_sql("t", "g", "i"),
        gpkg_rtree_trigger_update5_sql("t", "g", "i"),
        gpkg_rtree_trigger_update6_sql("t", "g", "i"),
        gpkg_rtree_trigger_update7_sql("t", "g", "i"),
        gpkg_rtree_trigger_delete_sql("t", "g", "i"),
    ]
    .join("\n\n");
    assert_eq!(all, expected);
    assert_eq!(all.matches("CREATE TRIGGER").count(), 7);
}
