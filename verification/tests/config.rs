use post_migrate::config::{default_tables, select_query, strip_trailing_newline};

#[test]
fn query_has_the_fixed_shape() {
    assert_eq!(
        select_query("wp_posts"),
        "SELECT ID, post_date, post_content, post_title from wp_posts"
    );
    assert_eq!(
        select_query("wpnews_posts"),
        "SELECT ID, post_date, post_content, post_title from wpnews_posts"
    );
}

#[test]
fn default_tables_are_the_two_post_tables() {
    let tables = default_tables();
    assert_eq!(tables, vec!["wp_posts".to_string(), "wpnews_posts".to_string()]);
}

#[test]
fn trailing_newline_is_stripped_once() {
    assert_eq!(strip_trailing_newline("secret\n".to_string()), "secret");
    assert_eq!(strip_trailing_newline("secret".to_string()), "secret");
    assert_eq!(strip_trailing_newline("".to_string()), "");
    assert_eq!(strip_trailing_newline("a\n\n".to_string()), "a\n");
    assert_eq!(strip_trailing_newline("\n".to_string()), "");
}

#[test]
fn bulk_load_tuning_values() {
    let t = post_migrate::config::bulk_load_tuning();
    assert!(t.create_if_missing);
    assert!(t.create_missing_column_families);
    assert_eq!(t.parallelism, 4);
    assert_eq!(t.point_lookup_cache_mb, 1024);
    assert_eq!(t.bytes_per_sync, 1048576);
    assert!(t.compress_values);
}
