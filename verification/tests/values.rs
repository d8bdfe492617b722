use quickserving::config::Config;
use quickserving::resolver::{apply_index, names_directory, not_found_path, place_below, resolve};
use quickserving::text::{chars_of, to_decimal};
use quickserving::{Headers, Version};

fn config(directory: &str, index_file: &str) -> Config {
    Config {
        port: 8080,
        directory: directory.to_string(),
        index_file: index_file.to_string(),
        not_found_uri: "404.html".to_string(),
    }
}

#[test]
fn decimal_numerals() {
    assert_eq!(to_decimal(0), "0");
    assert_eq!(to_decimal(5), "5");
    assert_eq!(to_decimal(9), "9");
    assert_eq!(to_decimal(10), "10");
    assert_eq!(to_decimal(18), "18");
    assert_eq!(to_decimal(404), "404");
    assert_eq!(to_decimal(1000), "1000");
    assert_eq!(to_decimal(65535), "65535");
    assert_eq!(to_decimal(u64::MAX), "18446744073709551615");
}

#[test]
fn characters_of_a_text() {
    assert_eq!(chars_of(""), Vec::<char>::new());
    assert_eq!(chars_of("a\u{e9}\u{1f600}"), vec!['a', '\u{e9}', '\u{1f600}']);
}

#[test]
fn version_on_the_wire() {
    let version = Version::new("HTTP".to_string(), "1.1".to_string());
    assert_eq!(version.name, "HTTP");
    assert_eq!(version.number, "1.1");
    assert_eq!(version.to_string(), "HTTP/1.1");
}

#[test]
fn headers_keep_the_order_of_insertion() {
    let mut headers = Headers::new();
    assert_eq!(headers.len(), 0);
    assert_eq!(headers.to_string(), "");
    headers.insert(&"B".to_string(), "2".to_string());
    headers.insert(&"A".to_string(), "1".to_string());
    headers.insert(&"B".to_string(), "3".to_string());
    assert_eq!(headers.len(), 3);
    assert_eq!(headers.to_string(), "B: 2\r\nA: 1\r\nB: 3\r\n");
    assert_eq!(headers.get(&"B".to_string()), Some(&"2".to_string()));
    assert_eq!(headers.get(&"A".to_string()), Some(&"1".to_string()));
    assert_eq!(headers.get(&"a".to_string()), None);
}

#[test]
fn directory_paths_end_in_a_slash() {
    assert!(names_directory("/"));
    assert!(names_directory("/docs/"));
    assert!(!names_directory("/docs"));
    assert!(!names_directory(""));
    assert!(!names_directory("/docs/\u{e9}"));
}

#[test]
fn index_file_stands_for_a_directory() {
    let config = config("www", "index.html");
    assert_eq!(apply_index("/".to_string(), &config), "/index.html");
    assert_eq!(apply_index("/docs/".to_string(), &config), "/docs/index.html");
    assert_eq!(apply_index("/docs".to_string(), &config), "/docs");
    assert_eq!(apply_index("".to_string(), &config), "");
}

#[test]
fn directory_and_its_index_resolve_alike() {
    let config = config("www", "index.html");
    assert_eq!(resolve("/", &config), "www//index.html");
    assert_eq!(resolve("/index.html", &config), "www//index.html");
    assert_eq!(resolve("/", &config), resolve("/index.html", &config));
    assert_eq!(resolve("/a/", &config), resolve("/a/index.html", &config));
}

#[test]
fn trailing_slashes_of_the_root_are_dropped() {
    assert_eq!(place_below("www/", "/a.txt"), "www//a.txt");
    assert_eq!(place_below("www///", "/a.txt"), "www//a.txt");
    assert_eq!(place_below("/srv/www", "/a.txt"), "/srv/www//a.txt");
    assert_eq!(place_below("/", "/a.txt"), "//a.txt");
    assert_eq!(place_below("", "a.txt"), "/a.txt");
    assert_eq!(place_below("a/b/", "c"), "a/b/c");
}

#[test]
fn paths_are_not_normalised() {
    let config = config("www", "index.html");
    assert_eq!(resolve("/../secret", &config), "www//../secret");
    assert_eq!(resolve("relative", &config), "www/relative");
}

#[test]
fn not_found_document_lies_below_the_root() {
    assert_eq!(not_found_path(&config("www/", "index.html")), "www/404.html");
    let mut nested = config("www", "index.html");
    nested.not_found_uri = "errors/".to_string();
    assert_eq!(not_found_path(&nested), "www/errors/");
}

#[test]
fn server_binds_every_interface() {
    assert_eq!(config("www", "index.html").bind_address(), "0.0.0.0:8080");
    let mut low = config("www", "index.html");
    low.port = 0;
    assert_eq!(low.bind_address(), "0.0.0.0:0");
    low.port = 65535;
    assert_eq!(low.bind_address(), "0.0.0.0:65535");
}
