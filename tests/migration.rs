use design_patterns::migration::{AddField, CreateTable, Migration, Schema, Step};

#[test]
fn using_trait_object_test_schema_migrations() {
    let mut schema = Schema::new();
    schema.add_migration(Step::CreateTable(CreateTable));
    schema.add_migration(Step::AddField(AddField));

    let execute_results = schema.execute();
    assert_eq!(execute_results, vec!["create table", "add field"]);

    let rollback_results = schema.rollback();
    assert_eq!(rollback_results, vec!["remove field", "drop table"]);
}

#[test]
fn rollback_keeps_membership() {
    let mut schema = Schema::new();
    schema.add_migration(Step::CreateTable(CreateTable));
    schema.add_migration(Step::AddField(AddField));
    assert_eq!(schema.size(), 2);
    let _ = schema.rollback();
    assert_eq!(schema.size(), 2);
    assert_eq!(schema.execute(), vec!["create table", "add field"]);
}

#[test]
fn execute_twice_gives_same_labels() {
    let mut schema = Schema::new();
    schema.add_migration(Step::AddField(AddField));
    schema.add_migration(Step::CreateTable(CreateTable));
    let first: Vec<String> = schema.execute().iter().map(|s| s.to_string()).collect();
    let second: Vec<String> = schema.execute().iter().map(|s| s.to_string()).collect();
    assert_eq!(first, second);
    assert_eq!(first, vec!["add field", "create table"]);
}

#[test]
fn empty_schema_yields_nothing() {
    let schema: Schema<Step> = Schema::new();
    assert_eq!(schema.size(), 0);
    assert!(schema.execute().is_empty());
    assert!(schema.rollback().is_empty());
}

#[test]
fn single_kind_schema() {
    let mut schema = Schema::new();
    schema.add_migration(CreateTable);
    schema.add_migration(CreateTable);
    schema.add_migration(CreateTable);
    assert_eq!(schema.execute(), vec!["create table"; 3]);
    assert_eq!(schema.rollback(), vec!["drop table"; 3]);
}

#[test]
fn steps_report_their_labels() {
    assert_eq!(CreateTable.execute(), "create table");
    assert_eq!(CreateTable.rollback(), "drop table");
    assert_eq!(AddField.execute(), "add field");
    assert_eq!(AddField.rollback(), "remove field");
    assert_eq!(Step::AddField(AddField).rollback(), "remove field");
}
