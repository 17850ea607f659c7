use zeus::error::ZeusError;
use zeus::pod_templates::{
    get_pod_metadata, get_template, is_pod, list_templates, metadata_from, read_annotations,
    read_template, regular_files, sanitize_name, template_file, template_name, template_path,
    templates, DirEntry, Metadata, Reading, Template, TemplateFile,
};

const MANIFEST: &str = "{\"apiVersion\": \"v1\", \"kind\": \"Pod\", \"metadata\": {\"name\": \
                        \"alpha\", \"labels\": {\"type\": \"game\"}, \"annotations\": \
                        {\"version\": \"1.0\", \"description\": \"First server\"}}}";

fn names(list: &[&str]) -> Vec<String> {
    list.iter().map(|name| name.to_string()).collect()
}

fn entries(list: &[(&str, bool)]) -> Vec<DirEntry> {
    list.iter()
        .map(|(name, regular)| DirEntry {
            name: name.to_string(),
            regular: *regular,
        })
        .collect()
}

fn files(list: &[&str]) -> Vec<DirEntry> {
    list.iter()
        .map(|name| DirEntry {
            name: name.to_string(),
            regular: true,
        })
        .collect()
}

fn text(content: &str) -> Reading {
    Reading::Text(content.to_string())
}

fn failure(name: &str) -> String {
    format!("Failed to parse pod template: {name}")
}

#[test]
fn sanitize_cuts_dots_and_slashes_from_both_ends() {
    assert_eq!(sanitize_name("alpha"), "alpha");
    assert_eq!(sanitize_name("../../etc/passwd"), "etc/passwd");
    assert_eq!(sanitize_name("./alpha/."), "alpha");
    assert_eq!(sanitize_name("...alpha"), "alpha");
    assert_eq!(sanitize_name("alpha///"), "alpha");
    assert_eq!(sanitize_name("/.a.b/c./"), "a.b/c");
}

#[test]
fn sanitize_of_nothing_but_dots_and_slashes_is_empty() {
    assert_eq!(sanitize_name(""), "");
    assert_eq!(sanitize_name("."), "");
    assert_eq!(sanitize_name("../.."), "");
}

#[test]
fn sanitize_keeps_other_characters() {
    assert_eq!(sanitize_name("  alpha "), "  alpha ");
    assert_eq!(sanitize_name(".\u{e9}t\u{e9}."), "\u{e9}t\u{e9}");
    assert_eq!(sanitize_name("\\..\\alpha"), "\\..\\alpha");
}

#[test]
fn sanitize_twice_is_sanitize_once() {
    for name in ["../../etc/passwd", "./alpha/.", "a/../b", "", "plain"] {
        let once = sanitize_name(name);
        assert_eq!(sanitize_name(&once), once);
    }
}

#[test]
fn template_path_joins_directory_name_and_extension() {
    assert_eq!(template_path("templates", "alpha"), "templates/alpha.json");
    assert_eq!(template_path("/srv/t", ""), "/srv/t/.json");
}

#[test]
fn template_file_points_into_the_directory() {
    assert_eq!(
        template_file("templates", "alpha"),
        Some("templates/alpha.json".to_string())
    );
    assert_eq!(
        template_file("templates", "../../alpha/"),
        Some("templates/alpha.json".to_string())
    );
    assert_eq!(
        template_file("templates", "a.b"),
        Some("templates/a.b.json".to_string())
    );
    assert_eq!(
        template_file("templates", "..."),
        Some("templates/.json".to_string())
    );
}

#[test]
fn template_file_refuses_names_that_hold_a_slash() {
    assert_eq!(template_file("templates", "../../etc/passwd"), None);
    assert_eq!(template_file("templates", "a/../../b"), None);
    assert_eq!(template_file("templates", "sub/alpha"), None);
}

#[test]
fn traversal_request_is_answered_as_the_bare_name() {
    assert_eq!(
        template_file("templates", "../../alpha"),
        template_file("templates", "alpha")
    );
    assert_eq!(
        get_template("../../alpha", &text(MANIFEST)),
        get_template("alpha", &text(MANIFEST))
    );
    assert_eq!(
        get_template("../../alpha", &Reading::Missing),
        get_template("alpha", &Reading::Missing)
    );
}

#[test]
fn traversal_request_with_inner_slash_reads_no_file() {
    assert_eq!(template_file("templates", "../../etc/passwd"), None);
    assert_eq!(
        get_template("../../etc/passwd", &text(MANIFEST)),
        Err(ZeusError::ClientError(failure("etc/passwd")))
    );
}

#[test]
fn template_name_cuts_the_extension() {
    assert_eq!(template_name("a.json"), "a");
    assert_eq!(template_name("b.json"), "b");
    assert_eq!(template_name("minecraft-server.json"), "minecraft-server");
    assert_eq!(template_name("a.yaml"), "a");
    assert_eq!(template_name("a.JSON"), "a");
    assert_eq!(template_name("notes.txt"), "notes");
}

#[test]
fn template_name_cuts_one_extension_only() {
    assert_eq!(template_name("a.json.json"), "a.json");
    assert_eq!(template_name("a.json.bak"), "a.json");
    assert_eq!(template_name("a.b.c"), "a.b");
    assert_eq!(template_name("a..json"), "a.");
}

#[test]
fn template_name_of_a_name_without_extension_is_the_name() {
    assert_eq!(template_name("README"), "README");
    assert_eq!(template_name("json"), "json");
    assert_eq!(template_name(""), "");
}

#[test]
fn template_name_cuts_at_the_last_dot_wherever_it_stands() {
    assert_eq!(template_name(".json"), "");
    assert_eq!(template_name("a."), "a");
    assert_eq!(template_name("."), "");
    assert_eq!(template_name(".."), ".");
}

#[test]
fn templates_lists_names_in_directory_order() {
    assert_eq!(
        templates(Ok(files(&["a.json", "b.json"]))),
        Ok(names(&["a", "b"]))
    );
    assert_eq!(
        templates(Ok(files(&["z.json", "a.json", "notes.txt"]))),
        Ok(names(&["z", "a", "notes"]))
    );
    assert_eq!(templates(Ok(Vec::new())), Ok(Vec::new()));
}

#[test]
fn templates_lists_regular_files_only() {
    assert_eq!(
        templates(Ok(entries(&[
            ("old", false),
            ("a.json", true),
            ("b.json", false),
            ("c.json", true),
        ]))),
        Ok(names(&["a", "c"]))
    );
    assert_eq!(
        templates(Ok(entries(&[("sub.json", false)]))),
        Ok(Vec::new())
    );
}

#[test]
fn regular_files_keeps_the_regular_files_in_order() {
    assert_eq!(
        regular_files(&entries(&[
            ("z.json", true),
            ("dir", false),
            ("a.json", true),
            ("link", false),
        ])),
        names(&["z.json", "a.json"])
    );
    assert!(regular_files(&Vec::new()).is_empty());
    assert!(regular_files(&entries(&[("dir", false)])).is_empty());
}

#[test]
fn a_listed_name_leads_back_to_its_file() {
    for file_name in ["a.json", "a.json.json", "a.b.json", ".json"] {
        let name = template_name(file_name);
        let path = template_file("templates", &name);
        if sanitize_name(&name) == name {
            assert_eq!(path, Some(format!("templates/{file_name}")));
        }
    }
    assert_eq!(
        template_file("templates", &template_name("a.json.json")),
        Some("templates/a.json.json".to_string())
    );
}

#[test]
fn templates_fails_with_the_directorys_failure() {
    assert_eq!(
        templates(Err("No such file or directory (os error 2)".to_string())),
        Err(ZeusError::ServerError(
            "No such file or directory (os error 2)".to_string()
        ))
    );
}

#[test]
fn template_name_finds_the_name_of_a_template_path() {
    for name in ["alpha", "a.b", "a.json", ""] {
        let path = template_path("templates", name);
        let file_name = path.rsplit('/').next().unwrap();
        assert_eq!(template_name(file_name), name);
    }
}

#[test]
fn metadata_is_read_from_the_manifest() {
    assert_eq!(
        get_pod_metadata(MANIFEST),
        Some(Metadata {
            name: "alpha".to_string(),
            version: "1.0".to_string(),
            description: "First server".to_string(),
        })
    );
}

#[test]
fn metadata_needs_all_three_strings() {
    let no_name = "{\"metadata\": {\"annotations\": {\"version\": \"1\", \"description\": \"d\"}}}";
    let no_version = "{\"metadata\": {\"name\": \"a\", \"annotations\": {\"description\": \"d\"}}}";
    let no_description = "{\"metadata\": {\"name\": \"a\", \"annotations\": {\"version\": \"1\"}}}";
    let no_annotations = "{\"metadata\": {\"name\": \"a\"}}";
    assert_eq!(get_pod_metadata(no_name), None);
    assert_eq!(get_pod_metadata(no_version), None);
    assert_eq!(get_pod_metadata(no_description), None);
    assert_eq!(get_pod_metadata(no_annotations), None);
    assert_eq!(get_pod_metadata("{}"), None);
}

#[test]
fn metadata_values_must_be_strings() {
    let number = "{\"metadata\": {\"name\": \"a\", \"annotations\": {\"version\": 1, \
                  \"description\": \"d\"}}}";
    let null = "{\"metadata\": {\"name\": \"a\", \"annotations\": {\"version\": \"1\", \
                \"description\": null}}}";
    assert_eq!(get_pod_metadata(number), None);
    assert_eq!(get_pod_metadata(null), None);
}

#[test]
fn metadata_of_malformed_text_is_none() {
    assert_eq!(get_pod_metadata(""), None);
    assert_eq!(get_pod_metadata("{\"metadata\": "), None);
    assert_eq!(get_pod_metadata("not json"), None);
    let trailing = format!("{MANIFEST} x");
    assert_eq!(get_pod_metadata(&trailing), None);
}

#[test]
fn metadata_from_reads_a_parsed_document() {
    let doc: serde_json::Value = serde_json::from_str(MANIFEST).unwrap();
    assert_eq!(
        metadata_from(&doc),
        Some(Metadata {
            name: "alpha".to_string(),
            version: "1.0".to_string(),
            description: "First server".to_string(),
        })
    );
    assert_eq!(metadata_from(&serde_json::Value::Null), None);
    assert_eq!(
        metadata_from(&serde_json::Value::String("alpha".to_string())),
        None
    );
}

#[test]
fn get_template_builds_the_template() {
    assert_eq!(
        get_template("alpha", &text(MANIFEST)),
        Ok(Template {
            name: "alpha".to_string(),
            manifest: MANIFEST.to_string(),
            version: "1.0".to_string(),
            description: "First server".to_string(),
        })
    );
}

#[test]
fn get_template_names_the_template_by_the_sanitized_request() {
    let template = get_template("./gamma/", &text(MANIFEST)).unwrap();
    assert_eq!(template.name, "gamma");
    assert_eq!(template.manifest, MANIFEST);
}

#[test]
fn get_template_without_file_is_the_callers_fault() {
    assert_eq!(
        get_template("alpha", &Reading::Missing),
        Err(ZeusError::ClientError(failure("alpha")))
    );
    assert_eq!(
        get_template("../alpha", &Reading::Missing),
        Err(ZeusError::ClientError(failure("alpha")))
    );
}

#[test]
fn get_template_with_broken_manifest_is_the_servers_fault() {
    assert_eq!(
        get_template("alpha", &text("{")),
        Err(ZeusError::ServerError(failure("alpha")))
    );
    assert_eq!(
        get_template("alpha", &text("{\"kind\": \"Service\"}")),
        Err(ZeusError::ServerError(failure("alpha")))
    );
}

#[test]
fn get_template_takes_every_pod() {
    assert_eq!(
        get_template("alpha", &text("{}")),
        Ok(Template {
            name: "alpha".to_string(),
            manifest: "{}".to_string(),
            version: String::new(),
            description: String::new(),
        })
    );
    let named = "{\"metadata\": {\"name\": \"alpha\"}}";
    assert_eq!(
        get_template("alpha", &text(named)),
        Ok(Template {
            name: "alpha".to_string(),
            manifest: named.to_string(),
            version: String::new(),
            description: String::new(),
        })
    );
    let versioned = "{\"metadata\": {\"annotations\": {\"version\": \"2.1\"}}}";
    assert_eq!(
        get_template("alpha", &text(versioned)),
        Ok(Template {
            name: "alpha".to_string(),
            manifest: versioned.to_string(),
            version: "2.1".to_string(),
            description: String::new(),
        })
    );
}

#[test]
fn every_listed_name_can_be_started() {
    let listed = templates(Ok(files(&["alpha.json", "beta.json"]))).unwrap();
    assert_eq!(listed, names(&["alpha", "beta"]));
    for name in listed {
        assert_eq!(
            template_file("templates", &name),
            Some(format!("templates/{name}.json"))
        );
        assert!(get_template(&name, &text("{\"kind\": \"Pod\"}")).is_ok());
    }
}

#[test]
fn get_template_refuses_a_name_with_a_slash_whatever_was_read() {
    assert_eq!(
        get_template("a/b", &text(MANIFEST)),
        Err(ZeusError::ClientError(failure("a/b")))
    );
    assert_eq!(
        get_template("a/b", &Reading::Unreadable),
        Err(ZeusError::ClientError(failure("a/b")))
    );
}

fn held(name: &str, content: Option<&str>) -> TemplateFile {
    TemplateFile {
        name: name.to_string(),
        content: content.map(|text| text.to_string()),
    }
}

#[test]
fn read_template_names_the_template_after_its_file() {
    assert_eq!(
        read_template(&held("gamma.json", Some(MANIFEST))),
        Some(Template {
            name: "gamma".to_string(),
            manifest: MANIFEST.to_string(),
            version: "1.0".to_string(),
            description: "First server".to_string(),
        })
    );
    assert_eq!(read_template(&held("gamma.json", None)), None);
    assert_eq!(read_template(&held("gamma.json", Some("[]"))), None);
}

#[test]
fn list_templates_keeps_the_directorys_order() {
    let files = vec![
        held("b.json", Some(MANIFEST)),
        held("a.json", Some(MANIFEST)),
    ];
    let found = list_templates(&files).unwrap();
    let names: Vec<&str> = found.iter().map(|template| template.name.as_str()).collect();
    assert_eq!(names, vec!["b", "a"]);
    assert_eq!(found[0].manifest, MANIFEST);
    assert_eq!(found[1].version, "1.0");
    assert_eq!(list_templates(&Vec::new()), Ok(Vec::new()));
}

#[test]
fn list_templates_fails_on_the_first_file_without_template() {
    let files = vec![
        held("a.json", Some(MANIFEST)),
        held("b.json", None),
        held("c.json", Some("{}")),
    ];
    assert_eq!(
        list_templates(&files),
        Err(ZeusError::ServerError(failure("b")))
    );
}

#[test]
fn is_pod_reads_pods_only() {
    assert!(is_pod(MANIFEST));
    assert!(is_pod("{}"));
    assert!(is_pod("{\"kind\": \"Pod\", \"apiVersion\": \"v1\"}"));
    assert!(!is_pod("{\"kind\": \"Service\"}"));
    assert!(!is_pod("{\"apiVersion\": \"v2\"}"));
    assert!(!is_pod("{\"metadata\": {\"annotations\": {\"version\": 1}}}"));
    assert!(!is_pod("{\"spec\": {\"containers\": 3}}"));
    assert!(!is_pod("[]"));
    assert!(!is_pod("not json"));
    assert!(!is_pod(""));
}

#[test]
fn read_annotations_takes_what_is_there() {
    assert_eq!(
        read_annotations(MANIFEST),
        (Some("1.0".to_string()), Some("First server".to_string()))
    );
    assert_eq!(
        read_annotations("{\"metadata\": {\"annotations\": {\"description\": \"d\"}}}"),
        (None, Some("d".to_string()))
    );
    assert_eq!(
        read_annotations("{\"metadata\": {\"annotations\": {\"version\": 3}}}"),
        (None, None)
    );
    assert_eq!(read_annotations("{}"), (None, None));
    assert_eq!(read_annotations("{"), (None, None));
}

#[test]
fn get_template_refuses_a_manifest_that_is_no_pod() {
    let service = MANIFEST.replace("\"Pod\"", "\"Service\"");
    assert_eq!(
        get_template("alpha", &text(&service)),
        Err(ZeusError::ServerError(failure("alpha")))
    );
}

#[test]
fn get_template_tells_a_missing_file_from_an_unreadable_one() {
    assert_eq!(
        get_template("alpha", &Reading::Missing),
        Err(ZeusError::ClientError(failure("alpha")))
    );
    assert_eq!(
        get_template("alpha", &Reading::Unreadable),
        Err(ZeusError::ServerError(failure("alpha")))
    );
}

#[test]
fn listing_goes_by_the_metadata_alone() {
    let service = MANIFEST.replace("\"Pod\"", "\"Service\"");
    assert_eq!(
        read_template(&held("alpha.json", Some(&service))),
        Some(Template {
            name: "alpha".to_string(),
            manifest: service.clone(),
            version: "1.0".to_string(),
            description: "First server".to_string(),
        })
    );
    assert_eq!(read_template(&held("alpha.json", Some("{}"))), None);
    assert_eq!(
        list_templates(&vec![held("alpha.json", Some("{}"))]),
        Err(ZeusError::ServerError(failure("alpha")))
    );
}
