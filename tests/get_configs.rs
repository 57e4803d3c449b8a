use ankaios::get_configs::{less_than, transform_into_table_rows, ConfigTableRow};

#[test]
fn table_rows_are_sorted_by_name() {
    let rows = transform_into_table_rows(vec![
        ("config_2".to_string(), "b".to_string()),
        ("config_10".to_string(), "c".to_string()),
        ("config_1".to_string(), "a".to_string()),
        ("Config".to_string(), "d".to_string()),
    ]);
    let names: Vec<&str> = rows.iter().map(|r: &ConfigTableRow| r.config.as_str()).collect();
    assert_eq!(names, vec!["Config", "config_1", "config_10", "config_2"]);
    assert!(transform_into_table_rows(vec![]).is_empty());
}

#[test]
fn less_than_is_code_point_order() {
    assert!(less_than("abc", "abd"));
    assert!(less_than("ab", "abc"));
    assert!(!less_than("abc", "abc"));
    assert!(!less_than("b", "abc"));
    assert!(less_than("Z", "a"));
}
