use bandurria::helpers::avatar::Avatar;
use bandurria::helpers::query::{
    avatar_from_row, check_new_page, check_reply_is_not_self, check_reply_page, comment_from_row,
    comment_lines, replies_of, stored_size, Comment,
};
use bandurria::helpers::status::Status;

fn comment(id: &str, parent_id: Option<&str>) -> Comment {
    comment_from_row(
        id.to_string(),
        parent_id.map(|parent_id| parent_id.to_string()),
        "a1".to_string(),
        "John".to_string(),
        "ABCDEF",
        "text",
        "2023-11-14 22:13:20",
    )
}

#[test]
fn comment_lines_leaves_out_the_empty_lines() {
    assert_eq!(comment_lines("one\n\ntwo\r\n\r\nthree\n"), vec!["one", "two", "three"]);
    assert_eq!(comment_lines("one"), vec!["one"]);
    assert_eq!(comment_lines(" \n\t"), vec![" ", "\t"]);
    assert_eq!(comment_lines(""), Vec::<String>::new());
    assert_eq!(comment_lines("\n\n\r\n"), Vec::<String>::new());
}

#[test]
fn comment_from_row_makes_what_is_shown() {
    let comment = comment_from_row(
        "c1".to_string(),
        Some("c0".to_string()),
        "a1".to_string(),
        "John".to_string(),
        "B8352AA3B449",
        "Hello,\n\nworld!",
        "2023-11-14 22:13:20",
    );
    assert_eq!(comment.id, "c1");
    assert_eq!(comment.parent_id, Some("c0".to_string()));
    assert_eq!(comment.author_id, "a1");
    assert_eq!(comment.name, "John");
    assert_eq!(comment.avatar, "b8352aa3b449");
    assert_eq!(comment.lines, vec!["Hello,", "world!"]);
    assert_eq!(comment.datetime.date, "14/11/2023");
    assert_eq!(comment.datetime.time, "22h13");
    assert_eq!(comment.datetime.utc, "2023-11-14T22:13:20Z");
}

#[test]
fn comment_from_row_with_a_time_that_cannot_be_read() {
    let comment = comment_from_row(
        "c1".to_string(),
        None,
        "a1".to_string(),
        "John".to_string(),
        "",
        "",
        "not a time",
    );
    assert_eq!(comment.parent_id, None);
    assert_eq!(comment.avatar, "");
    assert!(comment.lines.is_empty());
    assert_eq!(comment.datetime.date, "(?)");
    assert_eq!(comment.datetime.time, "(?)");
    assert_eq!(comment.datetime.utc, "(?)");
}

#[test]
fn replies_of_gathers_the_replies_of_each_comment() {
    let comments = vec![
        comment("c5", Some("c1")),
        comment("c4", Some("c2")),
        comment("c3", Some("c1")),
        comment("c2", None),
        comment("c1", None),
        comment("c0", Some("c5")),
    ];
    let replies = replies_of(&comments);
    assert_eq!(replies.len(), 3);
    assert_eq!(replies[0].parent_id, "c1");
    assert_eq!(replies[0].children, vec!["c5", "c3"]);
    assert_eq!(replies[1].parent_id, "c2");
    assert_eq!(replies[1].children, vec!["c4"]);
    assert_eq!(replies[2].parent_id, "c5");
    assert_eq!(replies[2].children, vec!["c0"]);
}

#[test]
fn replies_of_comments_without_replies() {
    assert!(replies_of(&Vec::new()).is_empty());
    assert!(replies_of(&vec![comment("c1", None), comment("c2", None)]).is_empty());
}

#[test]
fn a_comment_cannot_reply_to_itself() {
    assert_eq!(
        check_reply_is_not_self("c1", &Some("c1".to_string())),
        Err(Status::ImATeapot)
    );
    assert_eq!(check_reply_is_not_self("c1", &Some("c2".to_string())), Ok(()));
    assert_eq!(check_reply_is_not_self("c1", &None), Ok(()));
}

#[test]
fn a_reply_stands_on_the_page_of_its_comment() {
    assert_eq!(check_reply_page("p1", &Some("p1".to_string())), Ok(()));
    assert_eq!(
        check_reply_page("p1", &Some("p2".to_string())),
        Err(Status::NotAcceptable)
    );
    assert_eq!(check_reply_page("p1", &None), Err(Status::Gone));
}

#[test]
fn a_new_page_must_exist_where_that_is_asked() {
    assert_eq!(check_new_page(true, true), Ok(()));
    assert_eq!(check_new_page(true, false), Err(Status::Gone));
    assert_eq!(check_new_page(false, true), Ok(()));
    assert_eq!(check_new_page(false, false), Ok(()));
}

#[test]
fn avatar_from_row_reads_the_refresh_time() {
    let cached = avatar_from_row(
        Some("image/png".to_string()),
        Some(vec![1, 2]),
        2,
        60,
        "2023-11-14 22:13:20",
    );
    assert_eq!(cached.avatar.mime, Some("image/png".to_string()));
    assert_eq!(cached.avatar.data, Some(vec![1, 2]));
    assert_eq!(cached.avatar.size, 2);
    assert_eq!(cached.pixels_size, 60);
    assert_eq!(cached.refresh_at, Some(1700000000));
    let cached = avatar_from_row(None, None, 0, 60, "never");
    assert_eq!(cached.avatar.mime, None);
    assert_eq!(cached.avatar.data, None);
    assert_eq!(cached.refresh_at, None);
}

#[test]
fn stored_size_of_an_avatar_or_none() {
    let avatar = Avatar {
        data: vec![1, 2, 3],
        mime: "image/png".to_string(),
        size: 3,
    };
    assert_eq!(stored_size(&Some(avatar)), 3);
    assert_eq!(stored_size(&None), 0);
}
