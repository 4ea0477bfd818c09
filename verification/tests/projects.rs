use icon_forge::json::{as_str, get, parse_json, Json, JsonMember};
use icon_forge::projects::{
    default_true, find_tauri_conf, icon_file_names, icon_to_data_url, project_description,
    project_version, read_product_name, scan_projects, ChildProbe, ConfLocation, ConfSearch,
    FoundConf, ListedEntry, ProjectProbe, Settings, SubdirProbe,
};

fn s(text: &str) -> Json {
    Json::Str(text.to_string())
}

fn obj(members: Vec<(&str, Json)>) -> Json {
    Json::Object(
        members
            .into_iter()
            .map(|(k, v)| JsonMember { key: k.to_string(), value: v })
            .collect(),
    )
}

const BLANK: &str = "data:image/png;base64,iVBORw0KGgoAAAANSUhEUgAAAAEAAAABCAYAAAAfFcSJAAAADUlEQVR42mNk+M9QDwADhgGAWjR9awAAAABJRU5ErkJggg==";

#[test]
fn settings_default_asks_for_a_directory() {
    let d = Settings::default();
    assert_eq!(d.base_dir, "");
    assert!(d.full_bleed);
    assert!(default_true());
}

#[test]
fn json_member_lookup() {
    let j = obj(vec![("a", s("1")), ("b", Json::Number("2".to_string())), ("a", s("later"))]);
    assert_eq!(as_str(get(&j, "a")), Some("1".to_string()));
    assert!(matches!(get(&j, "b"), Some(Json::Number(n)) if n == "2"));
    assert!(get(&j, "c").is_none());
    assert_eq!(as_str(get(&j, "b")), None);
    assert!(get(&s("x"), "a").is_none());
}

#[test]
fn json_text_is_parsed() {
    let j = parse_json(r#"{"b": "x", "a": [1.5, true, null]}"#).unwrap();
    assert_eq!(as_str(get(&j, "b")), Some("x".to_string()));
    match get(&j, "a") {
        Some(Json::Array(items)) => {
            assert!(matches!(&items[0], Json::Number(n) if n == "1.5"));
            assert!(matches!(items[1], Json::Bool(true)));
            assert!(matches!(items[2], Json::Null));
        }
        _ => panic!("expected an array"),
    }
    assert!(parse_json("{\"a\": ").is_none());
    assert!(parse_json("").is_none());
}

#[test]
fn data_url_encodes_png_bytes() {
    assert_eq!(icon_to_data_url(Some(b"hello")), "data:image/png;base64,aGVsbG8=");
    assert_eq!(icon_to_data_url(Some(&[0u8, 255, 1])), "data:image/png;base64,AP8B");
    assert_eq!(icon_to_data_url(Some(&[])), "data:image/png;base64,");
}

#[test]
fn data_url_of_unreadable_icon_is_blank() {
    assert_eq!(icon_to_data_url(None), BLANK);
}

#[test]
fn icon_files_are_the_regular_files() {
    let listing = vec![
        ListedEntry { name: "icon.png".to_string(), is_file: true },
        ListedEntry { name: "android".to_string(), is_file: false },
        ListedEntry { name: "icon.icns".to_string(), is_file: true },
    ];
    assert_eq!(icon_file_names(Some(&listing)), vec!["icon.png".to_string(), "icon.icns".to_string()]);
    assert!(icon_file_names(None).is_empty());
    assert!(icon_file_names(Some(&Vec::new())).is_empty());
}

#[test]
fn description_prefers_long() {
    let conf = obj(vec![(
        "bundle",
        obj(vec![("shortDescription", s("short")), ("longDescription", s("long"))]),
    )]);
    assert_eq!(project_description(Some(&conf)), "long");
    let conf = obj(vec![(
        "bundle",
        obj(vec![("shortDescription", s("short")), ("longDescription", Json::Null)]),
    )]);
    assert_eq!(project_description(Some(&conf)), "short");
    let conf = obj(vec![("bundle", obj(vec![]))]);
    assert_eq!(project_description(Some(&conf)), "");
    assert_eq!(project_description(None), "");
}

#[test]
fn version_defaults_to_zero() {
    assert_eq!(project_version(Some(&obj(vec![("version", s("1.2.3"))]))), "1.2.3");
    assert_eq!(project_version(Some(&obj(vec![("version", Json::Number("2".to_string()))]))), "0.0.0");
    assert_eq!(project_version(Some(&obj(vec![]))), "0.0.0");
    assert_eq!(project_version(None), "0.0.0");
}

#[test]
fn product_name_is_a_string_member() {
    assert_eq!(read_product_name(Some(r#"{"productName": "Demo"}"#)), Some("Demo".to_string()));
    assert_eq!(read_product_name(Some(r#"{"productName": true}"#)), None);
    assert_eq!(read_product_name(Some("{}")), None);
    assert_eq!(read_product_name(Some("not json")), None);
    assert_eq!(read_product_name(None), None);
}

fn subdir(is_dir: bool, has_conf: bool, children: Option<Vec<ChildProbe>>) -> SubdirProbe {
    SubdirProbe { is_dir, has_conf, children }
}

#[test]
fn conf_in_src_tauri_wins() {
    let search = ConfSearch { standard_exists: true, entries: Some(vec![subdir(true, true, None)]) };
    assert!(matches!(find_tauri_conf(&search), Some(ConfLocation::Standard)));
}

#[test]
fn conf_found_one_level_down() {
    let search = ConfSearch {
        standard_exists: false,
        entries: Some(vec![subdir(false, true, None), subdir(true, false, Some(vec![])), subdir(true, true, None)]),
    };
    assert!(matches!(find_tauri_conf(&search), Some(ConfLocation::InSubdir(2))));
}

#[test]
fn conf_found_two_levels_down() {
    let children = vec![
        ChildProbe { is_dir: false, has_conf: true },
        ChildProbe { is_dir: true, has_conf: true },
    ];
    let search = ConfSearch {
        standard_exists: false,
        entries: Some(vec![subdir(true, false, None), subdir(true, false, Some(children)), subdir(true, true, None)]),
    };
    assert!(matches!(find_tauri_conf(&search), Some(ConfLocation::InNested(1, 1))));
}

#[test]
fn conf_not_found() {
    let search = ConfSearch { standard_exists: false, entries: None };
    assert!(find_tauri_conf(&search).is_none());
    let search = ConfSearch {
        standard_exists: false,
        entries: Some(vec![subdir(true, false, Some(vec![ChildProbe { is_dir: true, has_conf: false }]))]),
    };
    assert!(find_tauri_conf(&search).is_none());
}

fn found(dir: &str, icon_exists: bool) -> FoundConf {
    FoundConf {
        tauri_dir: format!("{}/src-tauri", dir),
        icon_path: format!("{}/src-tauri/icons/icon.png", dir),
        icon_exists,
        conf: Some(r#"{"version": "3.1.0", "bundle": {"shortDescription": "demo"}}"#.to_string()),
        icon_png: Some(b"hello".to_vec()),
        icon_listing: Some(vec![ListedEntry { name: "icon.png".to_string(), is_file: true }]),
        has_target: true,
    }
}

fn probe(name: Option<&str>, path: &str, is_dir: bool, f: Option<FoundConf>) -> ProjectProbe {
    ProjectProbe { is_dir, name: name.map(|n| n.to_string()), path: path.to_string(), found: f }
}

#[test]
fn scan_lists_projects_sorted_by_name() {
    let probes = vec![
        probe(Some("zeta"), "/b/zeta", true, Some(found("/b/zeta", true))),
        probe(Some("notes.txt"), "/b/notes.txt", false, None),
        probe(Some("alpha"), "/b/alpha", true, Some(found("/b/alpha", true))),
        probe(Some("noicon"), "/b/noicon", true, Some(found("/b/noicon", false))),
        probe(Some("plain"), "/b/plain", true, None),
        probe(None, "/b/\u{fffd}", true, Some(found("/b/x", true))),
    ];
    let projects = scan_projects(&probes);
    let names: Vec<&str> = projects.iter().map(|p| p.name.as_str()).collect();
    assert_eq!(names, vec!["Unknown", "alpha", "zeta"]);
    let alpha = &projects[1];
    assert_eq!(alpha.path, "/b/alpha");
    assert_eq!(alpha.tauri_dir, "/b/alpha/src-tauri");
    assert_eq!(alpha.icon_path, "/b/alpha/src-tauri/icons/icon.png");
    assert_eq!(alpha.icon_data_url, "data:image/png;base64,aGVsbG8=");
    assert_eq!(alpha.description, "demo");
    assert_eq!(alpha.version, "3.1.0");
    assert_eq!(alpha.icon_files, vec!["icon.png".to_string()]);
    assert!(alpha.has_target);
}

#[test]
fn scan_keeps_listing_order_of_equal_names() {
    let probes = vec![
        probe(Some("same"), "/b/first", true, Some(found("/b/first", true))),
        probe(Some("same"), "/b/second", true, Some(found("/b/second", true))),
    ];
    let projects = scan_projects(&probes);
    assert_eq!(projects.len(), 2);
    assert_eq!(projects[0].path, "/b/first");
    assert_eq!(projects[1].path, "/b/second");
}

#[test]
fn scan_of_empty_directory() {
    assert!(scan_projects(&Vec::new()).is_empty());
}

#[test]
fn scan_is_deterministic() {
    let probes = vec![
        probe(Some("b"), "/b/b1", true, Some(found("/b/b1", true))),
        probe(Some("a"), "/b/a", true, Some(found("/b/a", true))),
        probe(Some("b"), "/b/b2", true, Some(found("/b/b2", true))),
    ];
    let first: Vec<String> = scan_projects(&probes).into_iter().map(|p| p.path).collect();
    let second: Vec<String> = scan_projects(&probes).into_iter().map(|p| p.path).collect();
    assert_eq!(first, vec!["/b/a", "/b/b1", "/b/b2"]);
    assert_eq!(first, second);
}
