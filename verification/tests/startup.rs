use live_server::options::Options;
use live_server::startup::{
    announced_host, authority, page_url, describe_absolute_path_failure, describe_bind_failure, describe_root,
    get_absolute_path, link, print_listening_on_path, watched_directory,
};
use live_server::template::{error_html, index_html};
use std::path::PathBuf;

#[test]
fn default_options() {
    let options = Options::default();
    assert!(!options.hard_reload);
    assert!(options.index_listing);
    assert!(!options.auto_ignore);
}

#[test]
fn link_of_an_ipv4_host() {
    assert_eq!(link("127.0.0.1", false, "8080"), "http://127.0.0.1:8080");
    assert_eq!(authority("192.168.1.7", false, "80"), "192.168.1.7:80");
}

#[test]
fn link_of_an_ipv6_host_has_brackets() {
    assert_eq!(link("::1", true, "8080"), "http://[::1]:8080");
    assert_eq!(authority("fe80::1", true, "3000"), "[fe80::1]:3000");
}

#[test]
fn bind_failures_are_told_apart() {
    assert_eq!(
        describe_bind_failure("127.0.0.1:80", true, "whatever"),
        "Address 127.0.0.1:80 is already in use"
    );
    assert_eq!(
        describe_bind_failure("127.0.0.1:80", false, "Permission denied (os error 13)"),
        "Failed to listen on 127.0.0.1:80: Permission denied (os error 13)"
    );
}

#[test]
fn absolute_path_failure_names_path_and_reason() {
    assert_eq!(
        describe_absolute_path_failure("\"./site\"", "No such file or directory"),
        "Failed to get absolute path of \"./site\": No such file or directory"
    );
}

#[test]
fn an_absolute_path_is_cleaned_of_dots() {
    let absolute = get_absolute_path(&PathBuf::from("/srv/./www/../site")).unwrap();
    assert_eq!(absolute, PathBuf::from("/srv/site"));
}

#[test]
fn a_clean_absolute_path_stays_as_it_is() {
    assert_eq!(get_absolute_path(&PathBuf::from("/srv/www")).unwrap(), PathBuf::from("/srv/www"));
    assert_eq!(get_absolute_path(&PathBuf::from("/")).unwrap(), PathBuf::from("/"));
    assert_eq!(
        get_absolute_path(&PathBuf::from("/srv//www/")).unwrap().as_os_str(),
        "/srv/www"
    );
    assert_eq!(get_absolute_path(&PathBuf::from("/../..")).unwrap(), PathBuf::from("/"));
}

#[test]
fn every_path_made_begins_at_the_root() {
    for given in ["", ".", "..", "a", "./a/../b", "../../x", "/a/.."] {
        let made = get_absolute_path(&PathBuf::from(given)).unwrap();
        assert!(made.as_os_str().to_str().unwrap().starts_with('/'), "{given:?} gave {made:?}");
    }
}

#[test]
fn a_relative_path_becomes_absolute() {
    let absolute = get_absolute_path(&PathBuf::from("site/pages")).unwrap();
    assert!(absolute.is_absolute());
    assert!(absolute.ends_with("site/pages"));
}

#[test]
fn the_served_directory_is_announced() {
    assert_eq!(
        print_listening_on_path(&PathBuf::from("/srv/www")),
        Ok("Listening on /srv/www".to_string())
    );
    assert_eq!(
        describe_root(Some("/srv/www".to_string()), "\"/srv/www\""),
        Ok("Listening on /srv/www".to_string())
    );
}

#[test]
fn a_path_that_is_no_text_is_reported() {
    assert_eq!(
        describe_root(None, "\"/srv/\\xFF\""),
        Err("Failed to parse path to string for `\"/srv/\\xFF\"`".to_string())
    );
}

#[test]
fn error_page_holds_script_and_message() {
    let page = error_html("<script>x()</script>", "No such file");
    assert!(page.starts_with("<!DOCTYPE html>"));
    assert!(page.contains("<script>x()</script>\n</head>"));
    assert!(page.contains("<pre>No such file</pre>"));
    assert!(page.ends_with("</body>\n</html>\n"));
    assert!(!error_html("", "gone").contains("<script>"));
}

#[test]
fn index_page_holds_title_script_and_list() {
    let page = index_html("/docs/", "<script>x()</script>", "<li>a</li>");
    assert!(page.starts_with("<!DOCTYPE html>"));
    assert!(page.contains("<title>Index of /docs/</title>"));
    assert!(page.contains("<script>x()</script>\n</head>"));
    assert!(page.ends_with("<body><ul><li>a</li></ul></body>\n</html>\n"));
}

#[test]
fn the_parent_of_the_root_is_watched() {
    let root = vec!["srv".to_string(), "www".to_string()];
    assert_eq!(watched_directory(&root), vec!["srv".to_string()]);
    assert_eq!(watched_directory(&vec!["srv".to_string()]), Vec::<String>::new());
    assert_eq!(watched_directory(&Vec::new()), Vec::<String>::new());
}

#[test]
fn a_listener_on_every_interface_is_announced_under_the_local_address() {
    assert_eq!(announced_host("0.0.0.0", true, Some("192.168.1.7")), "192.168.1.7");
    assert_eq!(announced_host("0.0.0.0", true, None), "0.0.0.0");
    assert_eq!(announced_host("127.0.0.1", false, Some("192.168.1.7")), "127.0.0.1");
    assert_eq!(announced_host("127.0.0.1", false, None), "127.0.0.1");
}

#[test]
fn the_page_to_open_lies_below_the_link() {
    assert_eq!(page_url("http://127.0.0.1:8080", "docs/a.html"), "http://127.0.0.1:8080/docs/a.html");
    assert_eq!(page_url("http://127.0.0.1:8080", ""), "http://127.0.0.1:8080/");
}
