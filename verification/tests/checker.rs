use bandurria::helpers::checker::{page_full_uri, page_url_exists};

#[test]
fn page_full_uri_puts_the_page_after_the_site() {
    assert_eq!(
        page_full_uri("https://example.org", "/blog/post/"),
        "https://example.org/blog/post/"
    );
    assert_eq!(page_full_uri("", ""), "");
}

#[test]
fn a_page_exists_where_the_status_says_success() {
    assert!(page_url_exists(Some(200)));
    assert!(page_url_exists(Some(204)));
    assert!(page_url_exists(Some(299)));
    assert!(!page_url_exists(Some(199)));
    assert!(!page_url_exists(Some(300)));
    assert!(!page_url_exists(Some(301)));
    assert!(!page_url_exists(Some(404)));
    assert!(!page_url_exists(Some(500)));
    assert!(!page_url_exists(None));
}
