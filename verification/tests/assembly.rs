use schema_script::dependent_builder::{DependentObject, ForeignKey};
use schema_script::queries::{GET_DEPENDENT_OBJECTS, GET_FOREIGN_KEYS};
use schema_script::reassembly::sort_by_index;
use schema_script::script_builder::{
    build_migration_script, collect_successes, ExtractionNotFoundError, ScriptBuilder,
};
use schema_script::DBContext;

fn descriptor(schema: &str, view: &str) -> DependentObject {
    DependentObject {
        dependent_schema: String::from(schema),
        dependent_view: String::from(view),
        source_schema: String::from("location"),
        source_table: String::from("room"),
        column_names: vec![String::from("id")],
    }
}

fn room_building_fk() -> ForeignKey {
    ForeignKey {
        constraint_name: String::from("fk_room_building"),
        dependent_table_schema: String::from("location"),
        dependent_table_name: String::from("room"),
        dependent_column_name: String::from("building_id"),
        foreign_table_schema: String::from("location"),
        foreign_table_name: String::from("building"),
        foreign_column_name: String::from("id"),
    }
}

#[test]
fn add_buffer_line_appends() {
    let mut sb = ScriptBuilder::new();
    sb.add_buffer_line("one\n");
    sb.add_buffer_line("two\n");
    assert_eq!(sb.file_buffer, "one\ntwo\n");
    assert_eq!(sb.render(), "one\ntwo\n");
}

#[test]
fn delete_scripts_are_synthesized_from_descriptors() {
    let sb = ScriptBuilder::new();
    let script = sb.get_delete_script(
        String::from("location.room_view"),
        String::from("VIEW"),
    );
    assert_eq!(script, "DROP VIEW location.room_view;");
    let fk = room_building_fk();
    let fk_script = sb.get_fk_delete_script(&fk);
    assert_eq!(fk_script, "ALTER TABLE location.room\nDROP CONSTRAINT fk_room_building;");
}

#[test]
fn drop_section_holds_one_statement_per_descriptor_in_order() {
    let objs = vec![
        descriptor("location", "floor_view"),
        descriptor("location", "room_view"),
        descriptor("public", "all_rooms"),
    ];
    let mut sb = ScriptBuilder::new();
    sb.append_view_drop_scripts(&objs);
    let text = sb.file_buffer;
    assert_eq!(text.matches("DROP VIEW ").count(), objs.len());
    let first = text.find("DROP VIEW location.floor_view;").unwrap();
    let second = text.find("DROP VIEW location.room_view;").unwrap();
    let third = text.find("DROP VIEW public.all_rooms;").unwrap();
    assert!(first < second && second < third);
}

#[test]
fn sort_restores_discovery_order() {
    let scrambled = vec![
        (2usize, String::from("c")),
        (0usize, String::from("a")),
        (1usize, String::from("b")),
    ];
    let sorted = sort_by_index(&scrambled);
    assert_eq!(
        sorted,
        vec![
            (0usize, String::from("a")),
            (1usize, String::from("b")),
            (2usize, String::from("c")),
        ]
    );
}

#[test]
fn reassembly_is_invariant_under_completion_order() {
    let one_order = vec![
        (1usize, String::from("second")),
        (0usize, String::from("first")),
        (2usize, String::from("third")),
    ];
    let other_order = vec![
        (2usize, String::from("third")),
        (1usize, String::from("second")),
        (0usize, String::from("first")),
    ];
    assert_eq!(sort_by_index(&one_order), sort_by_index(&other_order));
}

#[test]
fn collect_successes_keeps_ok_reports_in_received_order() {
    let reports: Vec<Result<(usize, String), ExtractionNotFoundError>> = vec![
        Ok((1usize, String::from("b"))),
        Err(ExtractionNotFoundError { identity: String::from("location.broken_view") }),
        Ok((0usize, String::from("a"))),
    ];
    let kept = collect_successes(&reports);
    assert_eq!(kept, vec![(1usize, String::from("b")), (0usize, String::from("a"))]);
}

#[test]
fn failed_item_is_omitted_and_the_rest_stay() {
    let reports: Vec<Result<(usize, String), ExtractionNotFoundError>> = vec![
        Ok((2usize, String::from("CREATE VIEW c;"))),
        Err(ExtractionNotFoundError { identity: String::from("location.broken_view") }),
        Ok((0usize, String::from("CREATE VIEW a;"))),
    ];
    let mut sb = ScriptBuilder::new();
    sb.get_dependent_object_create_scripts(&reports);
    assert_eq!(
        sb.file_buffer,
        "\n/* --- VIEWS --- */\n\n\nCREATE VIEW a;\nCREATE VIEW c;\n"
    );
}

#[test]
fn create_sections_follow_original_index_order() {
    let reports: Vec<Result<(usize, String), ExtractionNotFoundError>> = vec![
        Ok((1usize, String::from("ALTER TABLE b;"))),
        Ok((0usize, String::from("ALTER TABLE a;"))),
    ];
    let mut sb = ScriptBuilder::new();
    sb.get_fk_create_scripts(&reports);
    assert_eq!(
        sb.file_buffer,
        "\n/* --- FOREIGN KEYS --- */\n\n\nALTER TABLE a;\nALTER TABLE b;\n"
    );
}

#[test]
fn whole_script_has_the_fixed_phase_order() {
    let objs = vec![descriptor("location", "room_view")];
    let fks = vec![room_building_fk()];
    let view_reports: Vec<Result<(usize, String), ExtractionNotFoundError>> =
        vec![Ok((0usize, String::from("-- VIEW location.room_view\n\nCREATE VIEW ...;\n")))];
    let fk_reports: Vec<Result<(usize, String), ExtractionNotFoundError>> =
        vec![Ok((0usize, String::from("-- FK fk_room_building\n\nALTER TABLE ...;")))];
    let sb = build_migration_script(&objs, &fks, &view_reports, &fk_reports);
    let expected = "-- DELETE DEPENDENTS\n\n\
-- VIEW location.room_view\n\
DROP VIEW location.room_view;\n\n\
-- FK fk_room_building\n\
ALTER TABLE location.room\nDROP CONSTRAINT fk_room_building;\n\n\
\n-- ADD BACK DEPENDENTS\n\n\
\n/* --- VIEWS --- */\n\n\n\
-- VIEW location.room_view\n\nCREATE VIEW ...;\n\n\
\n\
\n/* --- FOREIGN KEYS --- */\n\n\n\
-- FK fk_room_building\n\nALTER TABLE ...;\n";
    assert_eq!(sb.file_buffer, expected);
}

#[test]
fn whole_script_is_byte_identical_across_completion_orders() {
    let objs = vec![descriptor("location", "a_view"), descriptor("location", "b_view")];
    let fks: Vec<ForeignKey> = Vec::new();
    let fk_reports: Vec<Result<(usize, String), ExtractionNotFoundError>> = Vec::new();
    let one_order: Vec<Result<(usize, String), ExtractionNotFoundError>> = vec![
        Ok((1usize, String::from("CREATE VIEW b;"))),
        Ok((0usize, String::from("CREATE VIEW a;"))),
    ];
    let other_order: Vec<Result<(usize, String), ExtractionNotFoundError>> = vec![
        Ok((0usize, String::from("CREATE VIEW a;"))),
        Ok((1usize, String::from("CREATE VIEW b;"))),
    ];
    let first = build_migration_script(&objs, &fks, &one_order, &fk_reports);
    let second = build_migration_script(&objs, &fks, &other_order, &fk_reports);
    assert_eq!(first.file_buffer, second.file_buffer);
}

#[test]
fn empty_inputs_give_only_headers_and_markers() {
    let objs: Vec<DependentObject> = Vec::new();
    let fks: Vec<ForeignKey> = Vec::new();
    let no_reports: Vec<Result<(usize, String), ExtractionNotFoundError>> = Vec::new();
    let sb = build_migration_script(&objs, &fks, &no_reports, &no_reports);
    let expected = "-- DELETE DEPENDENTS\n\n\
\n-- ADD BACK DEPENDENTS\n\n\
\n/* --- VIEWS --- */\n\n\n\
\n\
\n/* --- FOREIGN KEYS --- */\n\n\n";
    assert_eq!(sb.file_buffer, expected);
    assert!(!sb.file_buffer.contains("DROP"));
    assert!(!sb.file_buffer.contains("CREATE"));
}

#[test]
fn catalog_queries_bind_target_and_order_discovery() {
    assert!(GET_DEPENDENT_OBJECTS.contains("ORDER BY 1,2"));
    assert!(GET_DEPENDENT_OBJECTS.contains("$1"));
    assert!(GET_DEPENDENT_OBJECTS.contains("$2"));
    assert!(GET_FOREIGN_KEYS.contains("'FOREIGN KEY'"));
    assert!(GET_FOREIGN_KEYS.contains("$1"));
    assert!(GET_FOREIGN_KEYS.contains("$2"));
}

#[test]
fn db_context_carries_the_connection_parameters() {
    let dbc = DBContext::new(
        String::from("localhost"),
        String::from("postgres"),
        String::from("demo"),
        String::from("SECRET-REDACTED"),
    );
    assert_eq!(dbc.host, "localhost");
    assert_eq!(dbc.username, "postgres");
    assert_eq!(dbc.db_name, "demo");
    assert_eq!(dbc.password, "SECRET-REDACTED");
}
