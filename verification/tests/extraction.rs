use schema_script::dependent_builder::{DependentObject, ForeignKey};
use schema_script::script_builder::ScriptBuilder;

fn room_view_descriptor() -> DependentObject {
    DependentObject {
        dependent_schema: String::from("location"),
        dependent_view: String::from("room_view"),
        source_schema: String::from("location"),
        source_table: String::from("room"),
        column_names: vec![String::from("id"), String::from("building_id")],
    }
}

fn room_building_fk() -> ForeignKey {
    ForeignKey {
        constraint_name: String::from("fk_room_building"),
        dependent_table_schema: String::from("location"),
        dependent_table_name: String::from("room"),
        dependent_column_name: String::from("building_id"),
        foreign_table_schema: String::from("location"),
        foreign_table_name: String::from("building"),
        foreign_column_name: String::from("id"),
    }
}

#[test]
fn collapse_spaces_shrinks_runs() {
    assert_eq!(ScriptBuilder::collapse_spaces("a   b  c"), "a b c");
    assert_eq!(ScriptBuilder::collapse_spaces("  leading"), " leading");
    assert_eq!(ScriptBuilder::collapse_spaces("trailing   "), "trailing ");
    assert_eq!(ScriptBuilder::collapse_spaces("no runs here"), "no runs here");
    assert_eq!(ScriptBuilder::collapse_spaces(""), "");
}

#[test]
fn collapse_spaces_is_idempotent() {
    let inputs = ["a   b  c", "  x  ", "", "   ", "tab\tand  space"];
    for input in inputs {
        let once = ScriptBuilder::collapse_spaces(input);
        let twice = ScriptBuilder::collapse_spaces(&once);
        assert_eq!(twice, once);
    }
}

#[test]
fn fmt_query_breaks_before_keywords() {
    let q = "ALTER TABLE ONLY location.room ADD CONSTRAINT fk_room_building FOREIGN KEY (building_id) REFERENCES location.building(id);";
    let formatted = ScriptBuilder::fmt_query(q);
    assert_eq!(
        formatted,
        "ALTER TABLE ONLY location.room\nADD CONSTRAINT fk_room_building\nFOREIGN KEY (building_id)\nREFERENCES location.building(id);"
    );
}

#[test]
fn fmt_query_breaks_before_check() {
    let q = "ALTER TABLE t ADD CONSTRAINT positive CHECK (x > 0);";
    let formatted = ScriptBuilder::fmt_query(q);
    assert_eq!(formatted, "ALTER TABLE t\nADD CONSTRAINT positive\nCHECK (x > 0);");
}

#[test]
fn view_extraction_returns_exactly_the_block() {
    let dep_obj = room_view_descriptor();
    let dump = "SET x;\nCREATE TABLE t (\n  a int\n);\nCREATE VIEW location.room_view AS\n SELECT room.id\n FROM location.room;\nGRANT SELECT;\n";
    let script = ScriptBuilder::get_create_script(&dep_obj, dump).unwrap();
    assert_eq!(
        script,
        "-- VIEW location.room_view\n\nCREATE VIEW location.room_view AS\n SELECT room.id\n FROM location.room;\n"
    );
}

#[test]
fn view_extraction_marker_must_start_a_line() {
    let dep_obj = room_view_descriptor();
    // the only CREATE VIEW text sits mid-line, so no marker line exists
    let dump = "SELECT 'CREATE VIEW location.room_view';\nDROP TABLE t;\n";
    let err = ScriptBuilder::get_create_script(&dep_obj, dump).unwrap_err();
    assert_eq!(err.identity, "location.room_view");
}

#[test]
fn view_extraction_without_terminator_runs_to_end() {
    let dep_obj = room_view_descriptor();
    let dump = "CREATE VIEW location.room_view AS\n SELECT room.id\n FROM location.room\n";
    let script = ScriptBuilder::get_create_script(&dep_obj, dump).unwrap();
    assert_eq!(
        script,
        "-- VIEW location.room_view\n\nCREATE VIEW location.room_view AS\n SELECT room.id\n FROM location.room\n"
    );
}

#[test]
fn view_extraction_reports_missing_marker() {
    let dep_obj = room_view_descriptor();
    let dump = "CREATE TABLE location.room (\n  id int\n);\n";
    let err = ScriptBuilder::get_create_script(&dep_obj, dump).unwrap_err();
    assert_eq!(err.identity, "location.room_view");
}

#[test]
fn fk_extraction_isolates_the_constraint() {
    let fk = room_building_fk();
    let dump = "--\n-- PostgreSQL database dump\n--\n\nALTER TABLE ONLY location.room\n    ADD CONSTRAINT fk_room_building FOREIGN KEY (building_id) REFERENCES location.building(id);\n";
    let script = ScriptBuilder::get_create_fk_script(&fk, dump).unwrap();
    assert_eq!(
        script,
        "-- FK fk_room_building\n\nALTER TABLE ONLY location.room\nADD CONSTRAINT fk_room_building\nFOREIGN KEY (building_id)\nREFERENCES location.building(id);"
    );
}

#[test]
fn fk_extraction_body_is_clean_of_tabs_and_break_precedes_foreign_key() {
    let fk = room_building_fk();
    let dump = "ALTER TABLE ONLY location.room\n    ADD CONSTRAINT fk_room_building \tFOREIGN KEY (building_id)\n    REFERENCES location.building(id);\n";
    let script = ScriptBuilder::get_create_fk_script(&fk, dump).unwrap();
    assert!(!script.contains('\t'));
    assert!(script.contains("ADD CONSTRAINT fk_room_building"));
    assert!(script.contains("\nFOREIGN KEY"));
}

#[test]
fn fk_extraction_stops_at_the_first_terminator() {
    let fk = room_building_fk();
    let dump = "ALTER TABLE ONLY location.room\n    ADD CONSTRAINT fk_room_building FOREIGN KEY (building_id) REFERENCES location.building(id);\nALTER TABLE ONLY location.room\n    ADD CONSTRAINT fk_room_floor FOREIGN KEY (floor_id) REFERENCES location.floor(id);\n";
    let script = ScriptBuilder::get_create_fk_script(&fk, dump).unwrap();
    assert!(script.contains("ADD CONSTRAINT fk_room_building"));
    assert!(!script.contains("fk_room_floor"));
}

#[test]
fn fk_extraction_reports_missing_constraint() {
    let fk = room_building_fk();
    let dump = "CREATE TABLE location.room (\n  id int\n);\n";
    let err = ScriptBuilder::get_create_fk_script(&fk, dump).unwrap_err();
    assert_eq!(err.identity, "fk_room_building");
}

#[test]
fn descriptor_names() {
    let dep_obj = room_view_descriptor();
    assert_eq!(dep_obj.get_full_name(), "location.room_view");
    assert_eq!(dep_obj.get_type_name(), "VIEW");
    assert_eq!(dep_obj.joined_column_names(), "id, building_id");
    let fk = room_building_fk();
    assert_eq!(fk.get_parent_table_name(), "location.room");
}
