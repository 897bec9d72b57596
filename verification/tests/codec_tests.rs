use disk_cache::codec::{derive_base_path, derive_path_with_extension};
use disk_cache::locator::{LocalPath, Locator, PathPrefix, Scheme};
use disk_cache::paths::RelPath;

fn strings(parts: &[&str]) -> Vec<String> {
    parts.iter().map(|p| p.to_string()).collect()
}

fn rel(parts: &[&str]) -> RelPath {
    RelPath { components: strings(parts) }
}

fn file_locator(prefix: PathPrefix, segments: &[&str]) -> Locator {
    Locator {
        scheme: Scheme::File,
        host: None,
        port: None,
        segments: Vec::new(),
        local: Some(LocalPath { prefix, segments: strings(segments) }),
    }
}

fn wasm_locator(host: &str, port: Option<u16>, segments: &[&str]) -> Locator {
    Locator {
        scheme: Scheme::Wasm,
        host: Some(host.to_string()),
        port,
        segments: strings(segments),
        local: None,
    }
}

#[test]
fn posix_file_path_strips_root_and_prefixes_scheme() {
    let loc = file_locator(PathPrefix::Slash, &["a", "b", "c"]);
    let derived = derive_base_path(&loc, false, None).unwrap();
    assert_eq!(derived.components, strings(&["file", "a", "b", "c"]));
}

#[test]
fn windows_drive_becomes_single_component() {
    let loc = file_locator(PathPrefix::Disk("C".to_string()), &["a", "b"]);
    let derived = derive_base_path(&loc, true, None).unwrap();
    assert_eq!(derived.components, strings(&["file", "C", "a", "b"]));
}

#[test]
fn slash_prefix_adds_no_component_under_windows() {
    let loc = file_locator(PathPrefix::Slash, &["deno", "js", "runner.ts"]);
    let derived = derive_base_path(&loc, true, None).unwrap();
    assert_eq!(derived.components, strings(&["file", "deno", "js", "runner.ts"]));
}

#[test]
fn unc_prefix_becomes_marker_host_and_share() {
    // Host normalization lower-cases the server name: the derived
    // component differs from the input.
    let loc = file_locator(
        PathPrefix::Unc("EXAMPLE.com".to_string(), "share".to_string()),
        &["x"],
    );
    let derived = derive_base_path(&loc, true, None).unwrap();
    assert_eq!(
        derived.components,
        strings(&["file", "UNC", "example.com", "share", "x"])
    );
}

#[test]
fn unc_server_that_does_not_parse_derives_nothing() {
    let loc = file_locator(
        PathPrefix::Unc("bad host".to_string(), "share".to_string()),
        &["x"],
    );
    assert!(derive_base_path(&loc, true, None).is_none());
}

#[test]
fn file_locator_without_local_path_derives_nothing() {
    let loc = Locator {
        scheme: Scheme::File,
        host: None,
        port: None,
        segments: Vec::new(),
        local: None,
    };
    assert!(derive_base_path(&loc, false, None).is_none());
}

#[test]
fn wasm_host_without_port() {
    let loc = wasm_locator("example.com", None, &["mod.wasm"]);
    let derived = derive_base_path(&loc, false, None).unwrap();
    assert_eq!(derived.components, strings(&["wasm", "example.com", "mod.wasm"]));
}

#[test]
fn wasm_port_is_mangled_into_the_authority() {
    let loc = wasm_locator("localhost", Some(8080), &["lib", "mod.wasm"]);
    let derived = derive_base_path(&loc, false, None).unwrap();
    assert_eq!(
        derived.components,
        strings(&["wasm", "localhost_PORT8080", "lib", "mod.wasm"])
    );
}

#[test]
fn unknown_scheme_derives_nothing() {
    // foo://bar
    let loc = Locator {
        scheme: Scheme::Other,
        host: Some("bar".to_string()),
        port: None,
        segments: Vec::new(),
        local: None,
    };
    assert!(derive_base_path(&loc, false, None).is_none());
}

#[test]
fn network_schemes_delegate_to_the_transform() {
    let loc = Locator {
        scheme: Scheme::Https,
        host: Some("example.com".to_string()),
        port: None,
        segments: strings(&["x.ts"]),
        local: None,
    };
    let remote = rel(&["https", "example.com", "0abc"]);
    let derived = derive_base_path(&loc, false, Some(remote)).unwrap();
    assert_eq!(derived.components, strings(&["https", "example.com", "0abc"]));
    assert!(derive_base_path(&loc, false, None).is_none());
}

#[test]
fn derivation_is_deterministic() {
    let loc = wasm_locator("localhost", Some(4545), &["a", "b.wasm"]);
    let first = derive_base_path(&loc, false, None).unwrap();
    let second = derive_base_path(&loc, false, None).unwrap();
    assert_eq!(first.components, second.components);
}

#[test]
fn different_schemes_give_different_first_components() {
    let file = file_locator(PathPrefix::Slash, &["a"]);
    let wasm = wasm_locator("a", None, &[]);
    let from_file = derive_base_path(&file, false, None).unwrap();
    let from_wasm = derive_base_path(&wasm, false, None).unwrap();
    assert_ne!(from_file.components[0], from_wasm.components[0]);
}

#[test]
fn extension_is_set_when_base_has_none() {
    let loc = file_locator(PathPrefix::Slash, &["a", "b", "x"]);
    let derived = derive_path_with_extension(&loc, false, None, "json").unwrap();
    assert_eq!(derived.components, strings(&["file", "a", "b", "x.json"]));
}

#[test]
fn existing_extension_is_kept_as_an_infix() {
    let loc = file_locator(PathPrefix::Slash, &["a", "x.ts"]);
    let derived = derive_path_with_extension(&loc, false, None, "js").unwrap();
    assert_eq!(derived.components, strings(&["file", "a", "x.ts.js"]));
}

#[test]
fn extension_applies_to_transform_results_too() {
    let loc = Locator {
        scheme: Scheme::Http,
        host: Some("example.com".to_string()),
        port: None,
        segments: strings(&["m.ts"]),
        local: None,
    };
    let remote = rel(&["http", "example.com", "m.ts"]);
    let derived = derive_path_with_extension(&loc, false, Some(remote), "meta").unwrap();
    assert_eq!(
        derived.components,
        strings(&["http", "example.com", "m.ts.meta"])
    );
}

#[test]
fn with_extension_on_a_bare_path() {
    let base = rel(&["dir", "name"]);
    let out = base.with_extension("bin");
    assert_eq!(out.components, strings(&["dir", "name.bin"]));
}

#[test]
fn with_extension_empty_extension_leaves_plain_name() {
    let base = rel(&["name"]);
    let out = base.with_extension("");
    assert_eq!(out.components, strings(&["name"]));
}

#[test]
fn with_extension_empty_extension_keeps_trailing_dot() {
    let base = rel(&["name.ts"]);
    let out = base.with_extension("");
    assert_eq!(out.components, strings(&["name.ts."]));
}

#[test]
fn hidden_file_has_no_extension() {
    let base = rel(&[".bar"]);
    let out = base.with_extension("js");
    assert_eq!(out.components, strings(&[".bar.js"]));
}

#[test]
fn largest_port_renders_in_full() {
    let loc = wasm_locator("h", Some(65535), &[]);
    let derived = derive_base_path(&loc, false, None).unwrap();
    assert_eq!(derived.components, strings(&["wasm", "h_PORT65535"]));
}
