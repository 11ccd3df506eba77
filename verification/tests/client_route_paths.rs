use std::path::Path;
use zkmr::client_route::{extension, file_name, find_with_extension, ClientFiles};

const PATHS: [&str; 30] = [
    "", "/", "//", ".", "..", "./", "../", "a", "a/", "a//", "a/.", "a/./", "a/..", "a/../",
    "/usr/bin/", "tmp/foo.txt", "foo.txt/.", "foo.txt/.//", "foo.txt/..", ".bashrc", "a.b.c",
    "dist/app.wasm", "dist/index.html", "x/.hidden.js", "x/file.", "x/...", "x/..a", "./a.js",
    "/a/b/c.tar.gz", "a/./b.rs",
];

#[test]
fn file_name_agrees_with_std() {
    for p in PATHS {
        let expected = Path::new(p).file_name().and_then(|n| n.to_str()).map(String::from);
        assert_eq!(file_name(p), expected, "path {p:?}");
    }
}

#[test]
fn extension_agrees_with_std() {
    for p in PATHS {
        let expected = Path::new(p).extension().and_then(|n| n.to_str()).map(String::from);
        assert_eq!(extension(p), expected, "path {p:?}");
    }
}

#[test]
fn finds_first_with_extension() {
    let files: Vec<String> = ["dist/a.js", "dist/app.wasm", "dist/b.js", "dist/index.html", "dist/.wasm"]
        .iter()
        .map(|s| s.to_string())
        .collect();
    assert_eq!(find_with_extension(&files, "wasm"), Some(&files[1]));
    assert_eq!(find_with_extension(&files, "js"), Some(&files[0]));
    assert_eq!(find_with_extension(&files, "html"), Some(&files[3]));
    assert_eq!(find_with_extension(&files, "css"), None);
    assert_eq!(find_with_extension(&[], "js"), None);
}

#[test]
fn file_name_of_found_client_files() {
    let files = vec!["/srv/dist/client-1a2b.wasm".to_string(), "/srv/dist/client-1a2b.js".to_string()];
    let wasm = find_with_extension(&files, "wasm").unwrap();
    assert_eq!(file_name(wasm), Some("client-1a2b.wasm".to_string()));
    let parts = ClientFiles {
        wasm: vec![0, 97, 115, 109],
        js: String::new(),
        html: String::new(),
        wasm_name: file_name(wasm).unwrap(),
        js_name: file_name(&files[1]).unwrap(),
    };
    assert_eq!(parts.js_name, "client-1a2b.js");
}
