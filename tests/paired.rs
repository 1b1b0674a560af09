use design_patterns::paired::{add_field, remove_field, Schema};

#[test]
fn using_function_pointer_test_schema_migrations() {
    let mut schema: Schema<fn() -> String> = Schema::new();
    schema.add_migration(|| "create table".to_string(), || "drop table".to_string());
    schema.add_migration(add_field, remove_field);

    let execute_results = schema.execute();
    assert_eq!(execute_results, vec!["create table", "add field"]);

    let rollback_results = schema.rollback();
    assert_eq!(rollback_results, vec!["remove field", "drop table"]);
}

#[test]
fn paired_rollback_is_reverse_of_insertion() {
    let mut schema: Schema<fn() -> String> = Schema::new();
    schema.add_migration(|| "a".to_string(), || "undo a".to_string());
    schema.add_migration(|| "b".to_string(), || "undo b".to_string());
    schema.add_migration(|| "c".to_string(), || "undo c".to_string());
    assert_eq!(schema.execute(), vec!["a", "b", "c"]);
    assert_eq!(schema.rollback(), vec!["undo c", "undo b", "undo a"]);
    assert_eq!(schema.size(), 3);
    assert_eq!(schema.execute(), vec!["a", "b", "c"]);
}

#[test]
fn paired_empty_schema() {
    let schema: Schema<fn() -> String> = Schema::new();
    assert!(schema.execute().is_empty());
    assert!(schema.rollback().is_empty());
}
