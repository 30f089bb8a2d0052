use json_io::with_json_extension;

#[test]
fn adds_extension_when_none() {
    assert_eq!(with_json_extension("data"), "data.json");
    assert_eq!(with_json_extension("dir/data"), "dir/data.json");
}

#[test]
fn replaces_existing_extension() {
    assert_eq!(with_json_extension("data.txt"), "data.json");
    assert_eq!(with_json_extension("dir/data.toml"), "dir/data.json");
    assert_eq!(with_json_extension("archive.tar.gz"), "archive.tar.json");
}

#[test]
fn keeps_json_extension() {
    assert_eq!(with_json_extension("data.json"), "data.json");
    assert_eq!(with_json_extension("dir/data.json"), "dir/data.json");
}

#[test]
fn hidden_files_have_no_extension() {
    assert_eq!(with_json_extension(".hidden"), ".hidden.json");
    assert_eq!(with_json_extension("dir/.hidden"), "dir/.hidden.json");
    assert_eq!(with_json_extension(".hidden.txt"), ".hidden.json");
}

#[test]
fn trailing_dot_counts_as_empty_extension() {
    assert_eq!(with_json_extension("data."), "data.json");
}

#[test]
fn paths_without_a_file_name_stay_unchanged() {
    assert_eq!(with_json_extension(""), "");
    assert_eq!(with_json_extension("/"), "/");
    assert_eq!(with_json_extension("dir/"), "dir/");
    assert_eq!(with_json_extension("."), ".");
    assert_eq!(with_json_extension(".."), "..");
    assert_eq!(with_json_extension("a/.."), "a/..");
}

#[test]
fn extension_normalization_agrees() {
    // The two spellings of the same logical path land on the same file.
    assert_eq!(with_json_extension("data"), with_json_extension("data.json"));
}

#[test]
fn forcing_the_extension_is_idempotent() {
    for p in ["data", "data.txt", "dir/a.b.c", ".hidden", "", "dir/", "..", "data."] {
        let once = with_json_extension(p);
        assert_eq!(with_json_extension(&once), once);
    }
}

#[test]
fn non_ascii_paths() {
    assert_eq!(with_json_extension("döt/ムページ.txt"), "döt/ムページ.json");
    assert_eq!(with_json_extension("ムページ"), "ムページ.json");
}
