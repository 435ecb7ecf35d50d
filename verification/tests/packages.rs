#[test]
fn parse_db_field_type() {}
