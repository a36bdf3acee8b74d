use apatite::plugins::{extension_of, is_dynamic_lib, plugin_version_supported, API_VERSION};
use std::path::Path;

#[test]
fn library_extensions() {
    assert!(is_dynamic_lib("plugins/libdice.so"));
    assert!(is_dynamic_lib("plugins/dice.dll"));
    assert!(is_dynamic_lib("plugins/libdice.dylib"));
    assert!(is_dynamic_lib("libdice.so"));
    assert!(!is_dynamic_lib("plugins/readme.txt"));
    assert!(!is_dynamic_lib("plugins/noext"));
    assert!(!is_dynamic_lib("plugins/.so"));
    assert!(!is_dynamic_lib("plugins/libdice.SO"));
    assert!(!is_dynamic_lib("plugins/lib.so.1"));
}

#[test]
fn extension_agrees_with_std_path() {
    let samples = [
        "a.so", "dir/a.so", "dir/a.so/", "dir/a.so/.", "dir/.so", ".so", "..", "dir/..", "a..so",
        "a.", "", "/", ".", "./", "dir//b.tar.gz", "./x.dll", "/abs/p.dylib", "x/./y.so", "dir.so/..",
        ".hidden.so", "no_ext",
    ];
    for s in samples {
        let expected = Path::new(s).extension().and_then(|e| e.to_str()).map(|e| e.to_string());
        assert_eq!(extension_of(s), expected, "on {:?}", s);
    }
}

#[test]
fn only_matching_plugin_version() {
    assert_eq!(API_VERSION, 1);
    assert!(plugin_version_supported(1));
    assert!(!plugin_version_supported(0));
    assert!(!plugin_version_supported(2));
}
