use tonk_worker::routes::{is_sorted_unique, pinned_routes, registered_routes, scan_routes, sort_texts};

#[test]
fn it_pins_a_sorted_deduplicated_table() {
    let routes = pinned_routes();
    let mut sorted = routes.clone();
    sorted.sort_unstable();
    sorted.dedup();
    assert_eq!(routes, sorted, "keep ROUTES sorted and unique");
    assert!(is_sorted_unique(&routes));
    assert_eq!(routes.len(), 55);
}

#[test]
fn it_reads_every_route_literal_from_the_source() {
    let source = r#"
        let app = Router::new()
            .route("/api/sync", post(sync))
            .route( "/api/site", post(site))
            .route(
                "/api", get(index));
    "#;
    assert_eq!(
        scan_routes(source),
        Some(vec!["/api/sync".to_string(), "/api/site".to_string(), "/api".to_string()])
    );
    assert_eq!(
        registered_routes(source),
        vec!["/api".to_string(), "/api/site".to_string(), "/api/sync".to_string()]
    );
}

#[test]
fn it_refuses_a_route_without_a_literal_path() {
    assert_eq!(scan_routes(".route(PATH, get(x))"), None);
    assert_eq!(scan_routes(".route(\"/api"), None);
    assert_eq!(scan_routes("no routes here"), Some(vec![]));
}

#[test]
fn it_sorts_and_keeps_repeats() {
    assert_eq!(
        sort_texts(vec!["b".to_string(), "a".to_string(), "b".to_string()]),
        vec!["a".to_string(), "b".to_string(), "b".to_string()]
    );
    assert!(!is_sorted_unique(&vec!["a".to_string(), "a".to_string()]));
    assert!(!is_sorted_unique(&vec!["b".to_string(), "a".to_string()]));
    assert!(is_sorted_unique(&vec![]));
}
