use yabridgectl::Config;

fn config_with_dirs(dirs: &[&str]) -> Config {
    let mut config = Config::default();
    for dir in dirs {
        config.plugin_dirs.insert(dir);
    }
    config
}

#[test]
fn aggregation_collects_every_result_in_sorted_dir_order() {
    let config = config_with_dirs(&["/c", "/a", "/b"]);
    // Outcomes arrive in the sorted directory order: /a, /b, /c.
    let outcomes: Vec<Result<&str, String>> = vec![Ok("r-a"), Ok("r-b"), Ok("r-c")];
    let pairs = config.index_directories(outcomes).unwrap();
    assert_eq!(
        pairs,
        vec![
            (String::from("/a"), "r-a"),
            (String::from("/b"), "r-b"),
            (String::from("/c"), "r-c"),
        ]
    );
}

#[test]
fn one_failing_scan_fails_the_whole_indexing() {
    let config = config_with_dirs(&["/c", "/a", "/b"]);
    let outcomes: Vec<Result<&str, String>> =
        vec![Ok("r-a"), Err(String::from("io error: denied")), Ok("r-c")];
    let err = config.index_directories(outcomes).unwrap_err();
    assert_eq!(err, "io error: denied");
}

#[test]
fn first_failure_in_directory_order_is_surfaced() {
    let config = config_with_dirs(&["/a", "/b", "/c"]);
    let outcomes: Vec<Result<&str, String>> = vec![
        Err(String::from("first")),
        Err(String::from("second")),
        Ok("r-c"),
    ];
    let err = config.index_directories(outcomes).unwrap_err();
    assert_eq!(err, "first");
}

#[test]
fn indexing_no_directories_yields_an_empty_mapping() {
    let config = Config::default();
    let outcomes: Vec<Result<&str, String>> = Vec::new();
    let pairs = config.index_directories(outcomes).unwrap();
    assert!(pairs.is_empty());
}

#[test]
fn results_are_opaque_payloads() {
    let config = config_with_dirs(&["/plugins"]);
    let outcomes: Vec<Result<Vec<u32>, String>> = vec![Ok(vec![1, 2, 3])];
    let pairs = config.index_directories(outcomes).unwrap();
    assert_eq!(pairs, vec![(String::from("/plugins"), vec![1, 2, 3])]);
}
