use bandurria::helpers::normalize::{email, email_hash, page_url};
use bandurria::helpers::status::Status;

fn normalized(page: &str) -> String {
    page_url(page).unwrap()
}

#[test]
fn page_url_puts_one_separator_around_and_between_segments() {
    assert_eq!(normalized("/blog/hello-world/"), "/blog/hello-world/");
    assert_eq!(normalized("blog/hello-world"), "/blog/hello-world/");
    assert_eq!(normalized("//blog///hello-world//"), "/blog/hello-world/");
    assert_eq!(normalized("a"), "/a/");
    assert_eq!(normalized("/a"), "/a/");
    assert_eq!(normalized("a/"), "/a/");
}

#[test]
fn page_url_turns_down_what_names_no_page() {
    for page in ["", "/", "//", "////", "?", "?a=1", "?a=b", "/?a=b", "//?/a/b"] {
        assert_eq!(page_url(page), Err(Status::BadRequest), "page: {:?}", page);
    }
}

#[test]
fn page_url_drops_the_query_string() {
    assert_eq!(normalized("/blog/post?utm_source=x"), "/blog/post/");
    assert_eq!(normalized("/blog/post/?a=/b/c"), "/blog/post/");
    assert_eq!(normalized("/blog?a?b"), "/blog/");
    assert_eq!(normalized("/blog/post#anchor"), "/blog/post#anchor/");
}

#[test]
fn page_url_is_lower_case() {
    assert_eq!(normalized("/Blog/Hello-World/"), "/blog/hello-world/");
    assert_eq!(normalized("/ÉCOLE/Über"), "/école/über/");
}

#[test]
fn page_url_keeps_other_characters() {
    assert_eq!(normalized("/a b/c.d/"), "/a b/c.d/");
    assert_eq!(normalized("/a\\b/"), "/a\\b/");
}

#[test]
fn page_url_twice_is_page_url_once() {
    for page in [
        "/Blog//Hello?x=1",
        "a/b/c",
        "//A//",
        "/ÉCOLE/",
        "/a%20b/",
    ] {
        let once = normalized(page);
        assert_eq!(normalized(&once), once);
    }
}

#[test]
fn page_url_takes_every_address_with_a_segment() {
    for page in ["a", "/a", "a/", "?/", " ", "/ /", "a?", "/?/a"] {
        let expected = page != "?/" && page != "/?/a";
        assert_eq!(page_url(page).is_ok(), expected, "page: {:?}", page);
    }
    assert_eq!(normalized(" "), "/ /");
    assert_eq!(normalized("a?"), "/a/");
}

#[test]
fn email_is_lower_case() {
    assert_eq!(email("John.Doe@Example.ORG"), "john.doe@example.org");
    assert_eq!(email("john.doe@example.org"), "john.doe@example.org");
    assert_eq!(email(""), "");
    assert_eq!(email(" A@b.c "), " a@b.c ");
}

#[test]
fn email_hash_is_the_upper_case_digest_of_the_lower_case_address() {
    assert_eq!(
        email_hash("john.doe@example.org"),
        "B8352AA3B4496FD4CE2CA11B04C262D75BBD6E12C6887F528F29BD5E5296DB3E"
    );
    assert_eq!(
        email_hash("John.Doe@EXAMPLE.org"),
        "B8352AA3B4496FD4CE2CA11B04C262D75BBD6E12C6887F528F29BD5E5296DB3E"
    );
    assert_eq!(
        email_hash("Élodie@example.org"),
        "049C3D3AF01B94501366A852E73F041A6EEEC91E968629761BBB9D1B6236C823"
    );
    assert_eq!(
        email_hash(""),
        "E3B0C44298FC1C149AFBF4C8996FB92427AE41E4649B934CA495991B7852B855"
    );
    assert_eq!(email_hash("a@b.c").len(), 64);
}
