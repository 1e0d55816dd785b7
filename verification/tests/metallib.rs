use vocal_magic::metallib::{
    build_dir, ensure_mlx_metallib_colocated, find_built_mlx_metallib, is_metallib, metallib_path,
    Search,
};

fn texts(list: &[&str]) -> Vec<String> {
    list.iter().map(|s| s.to_string()).collect()
}

#[test]
fn build_directories() {
    assert_eq!(build_dir("/p", true), "/p/target/debug/build");
    assert_eq!(build_dir("/p", false), "/p/target/release/build");
    assert_eq!(metallib_path("/bin"), "/bin/mlx.metallib");
}

#[test]
fn libraries_are_known_by_name() {
    assert!(is_metallib("/b/out/mlx.metallib"));
    assert!(!is_metallib("/b/out/mlx.metallib.d"));
    assert!(!is_metallib("/b/out/xmlx.metallib"));
}

#[test]
fn a_walk_collects_libraries() {
    let mut s = Search::new("/b");
    assert_eq!(s.next_dir(), Some("/b".to_string()));
    s.collect_mlx_metallibs("/b/x".to_string(), true);
    s.collect_mlx_metallibs("/b/mlx.metallib".to_string(), false);
    s.collect_mlx_metallibs("/b/other".to_string(), false);
    s.collect_mlx_metallibs("/b/mlx.metallib".to_string(), true);
    assert_eq!(s.candidates, texts(&["/b/mlx.metallib"]));
    assert_eq!(s.next_dir(), Some("/b/mlx.metallib".to_string()));
    assert_eq!(s.next_dir(), Some("/b/x".to_string()));
    assert_eq!(s.next_dir(), None);
}

#[test]
fn the_first_candidate_in_order_is_taken() {
    let c = texts(&["/b/z/mlx.metallib", "/b/a-b/mlx.metallib", "/b/a/mlx.metallib"]);
    assert_eq!(find_built_mlx_metallib(&c, "/b"), Ok("/b/a/mlx.metallib".to_string()));
    let r = texts(&["/b/a/mlx.metallib", "/b/z/mlx.metallib", "/b/a-b/mlx.metallib"]);
    assert_eq!(find_built_mlx_metallib(&r, "/b"), Ok("/b/a/mlx.metallib".to_string()));
    let mut sorted: Vec<std::path::PathBuf> = c.iter().map(std::path::PathBuf::from).collect();
    sorted.sort();
    assert_eq!(sorted[0], std::path::PathBuf::from("/b/a/mlx.metallib"));
}

#[test]
fn without_candidates_nothing_is_found() {
    assert_eq!(
        find_built_mlx_metallib(&Vec::new(), "/b"),
        Err("could not find mlx.metallib under /b".to_string())
    );
}

#[test]
fn the_library_is_copied_only_where_it_is_missing() {
    let c = texts(&["/b/mlx.metallib"]);
    assert!(matches!(ensure_mlx_metallib_colocated("/bin", true, &Vec::new(), "/b"), Ok(None)));
    match ensure_mlx_metallib_colocated("/bin", false, &c, "/b") {
        Ok(Some(plan)) => {
            assert_eq!(plan.from, "/b/mlx.metallib");
            assert_eq!(plan.to, "/bin/mlx.metallib");
        }
        _ => panic!("no plan"),
    }
    assert_eq!(
        ensure_mlx_metallib_colocated("/bin", false, &Vec::new(), "/b").err(),
        Some("could not find mlx.metallib under /b".to_string())
    );
}
