use bridle::source::normalize_source;

#[test]
fn normalize_source_handles_shorthand() {
    assert_eq!(
        normalize_source("owner/repo"),
        "https://github.com/owner/repo"
    );
}

#[test]
fn normalize_source_preserves_full_url() {
    let url = "https://github.com/owner/repo";
    assert_eq!(normalize_source(url), url);
}

#[test]
fn normalize_source_preserves_http() {
    let url = "http://example.com/repo";
    assert_eq!(normalize_source(url), url);
}

#[test]
fn normalize_source_leaves_other_schemes() {
    assert_eq!(normalize_source("git@host:owner/repo"), "git@host:owner/repo");
    assert_eq!(normalize_source("ssh://host/owner/repo"), "ssh://host/owner/repo");
}

#[test]
fn normalize_source_leaves_bare_words() {
    assert_eq!(normalize_source("repo"), "repo");
    assert_eq!(normalize_source(""), "");
}
