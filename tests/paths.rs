use proxy::error::ErrorKind;
use proxy::paths::{
    content_type_for, directory_form, file_extension, join_path, path_is_within, path_relative_to,
    resolve,
};
use proxy::text::{has_prefix, split_at_char, strip_leading_slashes};

fn some(s: &str) -> Option<String> {
    Some(s.to_string())
}

#[test]
fn split_keeps_empty_pieces() {
    assert_eq!(split_at_char("a,,b", ','), vec!["a", "", "b"]);
    assert_eq!(split_at_char("", ','), vec![""]);
    assert_eq!(split_at_char(",", ','), vec!["", ""]);
    assert_eq!(split_at_char("localhost:4500", ':'), vec!["localhost", "4500"]);
}

#[test]
fn prefix_test_is_plain_string_prefix() {
    assert!(has_prefix("/static/app.js", "/static/"));
    assert!(has_prefix("/static/", "/static/"));
    assert!(!has_prefix("/static", "/static/"));
    assert!(has_prefix("/staticfiles", "/static"));
    assert!(has_prefix("anything", ""));
}

#[test]
fn leading_slashes_are_stripped() {
    assert_eq!(strip_leading_slashes("//a/b/"), "a/b/");
    assert_eq!(strip_leading_slashes("///"), "");
    assert_eq!(strip_leading_slashes("a/b"), "a/b");
}

#[test]
fn requested_path_is_joined_as_relative() {
    assert_eq!(join_path("/srv/public", "/../../etc/passwd"), "/srv/public/../../etc/passwd");
    assert_eq!(join_path("/srv/public/", "//index.html"), "/srv/public/index.html");
    assert_eq!(join_path("static", ""), "static/");
    assert_eq!(directory_form("/srv"), "/srv/");
    assert_eq!(directory_form("/"), "/");
}

#[test]
fn containment_is_by_whole_components() {
    assert!(path_is_within("/srv/public", "/srv/public"));
    assert!(path_is_within("/srv/public", "/srv/public/a/b.txt"));
    assert!(!path_is_within("/srv/public", "/srv/publicity/a"));
    assert!(!path_is_within("/srv/public", "/etc/passwd"));
    assert!(!path_is_within("/srv/public", "/srv"));
    assert!(path_is_within("/", "/etc/passwd"));
}

#[test]
fn relative_paths_drop_the_base() {
    assert_eq!(path_relative_to("/srv", "/srv/a/b"), some("a/b"));
    assert_eq!(path_relative_to("/srv", "/srv"), some(""));
    assert_eq!(path_relative_to("/", "/a"), some("a"));
    assert_eq!(path_relative_to("/srv", "/srvx"), None);
}

#[test]
fn resolution_outcomes() {
    assert!(matches!(resolve(some("/srv"), None), Err(ErrorKind::DoesNotExist)));
    assert!(matches!(resolve(None, some("/srv/a")), Err(ErrorKind::DoesNotExist)));
    assert!(matches!(resolve(some("/srv/public"), some("/etc/passwd")), Err(ErrorKind::TraversalAttempt)));
    match resolve(some("/srv/public"), some("/srv/public/a.txt")) {
        Ok(p) => {
            assert_eq!(p.path(), "/srv/public/a.txt");
            assert_eq!(p.base(), "/srv/public");
        }
        Err(_) => panic!("expected a resolved path"),
    }
}

#[test]
fn extensions_follow_the_file_name() {
    assert_eq!(file_extension("/a/b.txt"), some("txt"));
    assert_eq!(file_extension("/a/b.tar.gz"), some("gz"));
    assert_eq!(file_extension("/a/.bashrc"), None);
    assert_eq!(file_extension("/a/noext"), None);
    assert_eq!(file_extension("/dir.d/file"), None);
    assert_eq!(file_extension("/a/file."), some(""));
    assert_eq!(file_extension("/a/.."), None);
    assert_eq!(file_extension("index.html"), some("html"));
}

#[test]
fn content_type_comes_from_the_extension() {
    assert_eq!(content_type_for("/srv/index.html"), "text/html; charset=utf8");
    assert_eq!(content_type_for("/srv/style.css"), "text/css; charset=utf8");
    assert_eq!(content_type_for("/srv/README"), "application/octet-stream");
    assert_eq!(content_type_for("/srv/.hidden"), "application/octet-stream");
}

#[test]
fn failures_map_to_fixed_responses() {
    assert_eq!(ErrorKind::DoesNotExist.status_code(), 404);
    assert_eq!(ErrorKind::DoesNotExist.response_body(), "Not Found");
    for kind in [ErrorKind::TraversalAttempt, ErrorKind::IoError, ErrorKind::ForwardingFailure] {
        assert_eq!(kind.status_code(), 500);
        assert_eq!(kind.response_body(), "Something went wrong");
    }
}
