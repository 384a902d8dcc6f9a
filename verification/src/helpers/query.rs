//! What is made of the rows that the database gives and what is checked
//! before rows are written. Talking to the database is left to the caller.

use vstd::prelude::*;
use super::avatar::{
    Avatar, AvatarBytesSize, AvatarData, AvatarMIME, AvatarMaybe, AvatarPixelsSize, CachedAvatar,
};
use super::status::Status;
use super::text::{lowercase, same_text, texts_of, to_lowercase};
use super::time::{
    datetime_to_date_string, datetime_to_time_string, datetime_to_utc_string,
    parse_datetime_string, parsed_datetime, shown_datetime, DATETIME_FORMAT,
    DATETIME_TO_DATE_FORMAT,
    DATETIME_TO_TIME_FORMAT, DATETIME_TO_UTC_FORMAT,
};

verus! {

/// A comment as it is shown.
pub struct Comment {
    pub id: String,
    pub parent_id: Option<String>,
    pub author_id: String,
    pub name: String,
    pub avatar: String,
    pub lines: Vec<String>,
    pub datetime: CommentDateTime,
}

/// The time of a comment as it is shown.
pub struct CommentDateTime {
    pub date: String,
    pub time: String,
    pub utc: String,
}

/// The comments that reply to one comment.
pub struct Replies {
    pub parent_id: String,
    pub children: Vec<String>,
}

/// The lines of `text`, as `str::lines` of std cuts them: at each line
/// feed, a carriage return before it left out.
pub uninterp spec fn lines_of(text: Seq<char>) -> Seq<Seq<char>>;

/// Calls `str::lines`.
#[verifier::external_body]
fn text_lines(text: &str) -> (lines: Vec<String>)
    ensures
        texts_of(lines@) == lines_of(text@),
{
    text.lines().map(|line| line.to_string()).collect()
}

/// The lines of `lines` that are not empty, in order.
pub open spec fn non_empty(lines: Seq<Seq<char>>) -> Seq<Seq<char>>
    decreases lines.len(),
{
    if lines.len() == 0 {
        Seq::empty()
    } else if lines.last().len() > 0 {
        non_empty(lines.drop_last()).push(lines.last())
    } else {
        non_empty(lines.drop_last())
    }
}

/// The lines of a comment that are shown: those that are not empty.
pub fn comment_lines(text: &str) -> (lines: Vec<String>)
    ensures
        texts_of(lines@) == non_empty(lines_of(text@)),
{
    let all = text_lines(text);
    let ghost all_texts = texts_of(all@);
    let mut lines: Vec<String> = Vec::new();
    let mut i: usize = 0;
    assert(all_texts.take(0) =~= Seq::<Seq<char>>::empty());
    assert(texts_of(lines@) =~= non_empty(all_texts.take(0)));
    while i < all.len()
        invariant
            0 <= i <= all@.len(),
            all_texts == texts_of(all@),
            texts_of(lines@) == non_empty(all_texts.take(i as int)),
        decreases all@.len() - i,
    {
        let line = all[i].clone();
        let ghost before = texts_of(lines@);
        proof {
            let t = all_texts.take(i as int + 1);
            assert(t.drop_last() =~= all_texts.take(i as int));
            assert(t.last() == line@);
        }
        if line.as_str().unicode_len() > 0 {
            lines.push(line);
            assert(texts_of(lines@) =~= before.push(line@));
        }
        i = i + 1;
    }
    assert(all_texts.take(i as int) =~= all_texts);
    lines
}

/// Makes the comment that is shown from a row of the database. The avatar
/// is named by the lower-case hash of the author's email address.
pub fn comment_from_row(
    id: String,
    parent_id: Option<String>,
    author_id: String,
    name: String,
    email_hash: &str,
    text: &str,
    created_at: &str,
) -> (comment: Comment)
    ensures
        comment.id == id,
        comment.parent_id == parent_id,
        comment.author_id == author_id,
        comment.name == name,
        comment.avatar@ == lowercase(email_hash@),
        texts_of(comment.lines@) == non_empty(lines_of(text@)),
        comment.datetime.date@ == shown_datetime(
            parsed_datetime(created_at@, DATETIME_FORMAT@),
            DATETIME_TO_DATE_FORMAT@,
        ),
        comment.datetime.time@ == shown_datetime(
            parsed_datetime(created_at@, DATETIME_FORMAT@),
            DATETIME_TO_TIME_FORMAT@,
        ),
        comment.datetime.utc@ == shown_datetime(
            parsed_datetime(created_at@, DATETIME_FORMAT@),
            DATETIME_TO_UTC_FORMAT@,
        ),
{
    let datetime = parse_datetime_string(created_at);
    Comment {
        id,
        parent_id,
        author_id,
        name,
        avatar: to_lowercase(email_hash),
        lines: comment_lines(text),
        datetime: CommentDateTime {
            date: datetime_to_date_string(&datetime),
            time: datetime_to_time_string(&datetime),
            utc: datetime_to_utc_string(&datetime),
        },
    }
}

/// The identifiers of the comments among the first `n` that reply to
/// `parent`, in order.
pub open spec fn children_of(comments: Seq<Comment>, parent: Seq<char>, n: int) -> Seq<Seq<char>>
    decreases n,
{
    if n <= 0 {
        Seq::empty()
    } else {
        let before = children_of(comments, parent, n - 1);
        match comments[n - 1].parent_id {
            Some(parent_id) => if parent_id@ == parent {
                before.push(comments[n - 1].id@)
            } else {
                before
            },
            None => before,
        }
    }
}

/// Whether `replies` holds the replies among the first `n` comments: for
/// each comment that is replied to one entry, and in it the identifiers of
/// the replies in order.
pub open spec fn is_replies_of(replies: Seq<Replies>, comments: Seq<Comment>, n: int) -> bool {
    &&& forall|i: int, j: int|
        0 <= i < j < replies.len() ==> (#[trigger] replies[i]).parent_id@ != (
        #[trigger] replies[j]).parent_id@
    &&& forall|i: int|
        0 <= i < replies.len() ==> texts_of((#[trigger] replies[i]).children@) == children_of(
            comments,
            replies[i].parent_id@,
            n,
        ) && replies[i].children@.len() > 0
    &&& forall|k: int|
        0 <= k < n && (#[trigger] comments[k]).parent_id is Some ==> exists|i: int|
            0 <= i < replies.len() && (#[trigger] replies[i]).parent_id@
                == comments[k].parent_id->0@
}

/// Place of the entry for `parent_id` in `replies`, or its length where
/// there is none.
fn find_replies(replies: &Vec<Replies>, parent_id: &str) -> (place: usize)
    ensures
        place <= replies@.len(),
        forall|i: int| 0 <= i < place ==> (#[trigger] replies@[i]).parent_id@ != parent_id@,
        place < replies@.len() ==> replies@[place as int].parent_id@ == parent_id@,
{
    let mut place: usize = 0;
    while place < replies.len()
        invariant
            place <= replies@.len(),
            forall|i: int| 0 <= i < place ==> (#[trigger] replies@[i]).parent_id@ != parent_id@,
        decreases replies@.len() - place,
    {
        if same_text(replies[place].parent_id.as_str(), parent_id) {
            return place;
        }
        place = place + 1;
    }
    place
}

/// Gathers, for each comment that is replied to, the identifiers of its
/// replies in the order of the comments.
pub fn replies_of(comments: &Vec<Comment>) -> (replies: Vec<Replies>)
    ensures
        is_replies_of(replies@, comments@, comments@.len() as int),
{
    let mut replies: Vec<Replies> = Vec::new();
    let mut k: usize = 0;
    while k < comments.len()
        invariant
            0 <= k <= comments@.len(),
            is_replies_of(replies@, comments@, k as int),
        decreases comments@.len() - k,
    {
        let ghost old_replies = replies@;
        match &comments[k].parent_id {
            Some(parent_id) => {
                let place = find_replies(&replies, parent_id.as_str());
                let id_string = comments[k].id.clone();
                if place < replies.len() {
                    let mut entry = replies.remove(place);
                    let ghost old_children = entry.children@;
                    entry.children.push(id_string);
                    assert(texts_of(entry.children@) =~= texts_of(old_children).push(id_string@));
                    replies.insert(place, entry);
                    assert(replies@.len() == old_replies.len());
                    assert forall|i: int| 0 <= i < replies@.len() implies (
                    #[trigger] replies@[i]).parent_id@ == old_replies[i].parent_id@ && (i
                        != place ==> replies@[i] == old_replies[i]) by {}
                    assert(replies@[place as int].children@ == entry.children@);
                } else {
                    let mut children: Vec<String> = Vec::new();
                    children.push(id_string);
                    assert(texts_of(children@) =~= seq![id_string@]);
                    proof {
                        lemma_no_children_without_entry(
                            old_replies,
                            comments@,
                            parent_id@,
                            k as int,
                        );
                    }
                    replies.push(Replies { parent_id: parent_id.clone(), children });
                    assert forall|i: int| 0 <= i < old_replies.len() implies (
                    #[trigger] replies@[i]) == old_replies[i] by {}
                }
                assert(is_replies_of(replies@, comments@, k as int + 1)) by {
                    assert forall|c: int|
                        0 <= c < k + 1 && (#[trigger] comments@[c]).parent_id is Some implies exists|
                        i: int,
                    |
                        0 <= i < replies@.len() && (#[trigger] replies@[i]).parent_id@
                            == comments@[c].parent_id->0@ by {
                        if c < k {
                            let i = choose|i: int|
                                0 <= i < old_replies.len() && (#[trigger] old_replies[i]).parent_id@
                                    == comments@[c].parent_id->0@;
                            assert(replies@[i].parent_id@ == comments@[c].parent_id->0@);
                        } else {
                            assert(replies@[place as int].parent_id@ == parent_id@);
                        }
                    }
                }
            },
            None => {},
        }
        k = k + 1;
    }
    replies
}

/// Where no entry stands for a comment, none of the comments seen so far
/// replies to it.
proof fn lemma_no_children_without_entry(
    replies: Seq<Replies>,
    comments: Seq<Comment>,
    parent: Seq<char>,
    n: int,
)
    requires
        0 <= n <= comments.len(),
        is_replies_of(replies, comments, n),
        forall|i: int| 0 <= i < replies.len() ==> (#[trigger] replies[i]).parent_id@ != parent,
    ensures
        children_of(comments, parent, n) == Seq::<Seq<char>>::empty(),
{
    assert forall|k: int| 0 <= k < n && (#[trigger] comments[k]).parent_id is Some implies
        comments[k].parent_id->0@ != parent by {
        let i = choose|i: int|
            0 <= i < replies.len() && (#[trigger] replies[i]).parent_id@
                == comments[k].parent_id->0@;
        assert(replies[i].parent_id@ != parent);
    }
    lemma_children_of_stranger(comments, parent, n);
}

/// A comment that none of the first `n` replies to has no replies among
/// them.
proof fn lemma_children_of_stranger(comments: Seq<Comment>, parent: Seq<char>, n: int)
    requires
        0 <= n <= comments.len(),
        forall|k: int|
            0 <= k < n && (#[trigger] comments[k]).parent_id is Some ==> comments[k].parent_id->0@
                != parent,
    ensures
        children_of(comments, parent, n) == Seq::<Seq<char>>::empty(),
    decreases n,
{
    if n > 0 {
        lemma_children_of_stranger(comments, parent, n - 1);
        if comments[n - 1].parent_id is Some {
            assert(comments[n - 1].parent_id->0@ != parent);
        }
    }
}

/// Checks that a comment does not reply to itself.
pub fn check_reply_is_not_self(comment_id: &str, reply_to_id: &Option<String>) -> (checked: Result<
    (),
    Status,
>)
    ensures
        checked is Err == (reply_to_id is Some && reply_to_id->0@ == comment_id@),
        checked is Err ==> checked->Err_0 == Status::ImATeapot,
{
    match reply_to_id {
        Some(reply_to_id) => {
            if same_text(reply_to_id.as_str(), comment_id) {
                return Err(Status::ImATeapot);
            }
            Ok(())
        },
        None => Ok(()),
    }
}

/// Checks the page of the comment that is replied to, as it was looked up:
/// the comment must be there, and on the page of the reply.
pub fn check_reply_page(page_id: &str, reply_page_id: &Option<String>) -> (checked: Result<
    (),
    Status,
>)
    ensures
        checked == (match *reply_page_id {
            None => Err(Status::Gone),
            Some(reply_page_id) => if reply_page_id@ == page_id@ {
                Ok(())
            } else {
                Err(Status::NotAcceptable)
            },
        }),
{
    match reply_page_id {
        None => Err(Status::Gone),
        Some(reply_page_id) => {
            if !same_text(reply_page_id.as_str(), page_id) {
                return Err(Status::NotAcceptable);
            }
            Ok(())
        },
    }
}

/// Checks that a page that is not known yet may be recorded: where pages
/// must exist, it was found over HTTP.
pub fn check_new_page(check_pages_exist: bool, page_exists: bool) -> (checked: Result<(), Status>)
    ensures
        checked == if check_pages_exist && !page_exists {
            Err::<(), Status>(Status::Gone)
        } else {
            Ok::<(), Status>(())
        },
{
    if check_pages_exist {
        if !page_exists {
            return Err(Status::Gone);
        }
    }
    Ok(())
}

/// Makes the cached avatar from a row of the database.
pub fn avatar_from_row(
    mime: Option<AvatarMIME>,
    data: Option<AvatarData>,
    bytes_size: AvatarBytesSize,
    pixels_size: AvatarPixelsSize,
    refresh_at: &str,
) -> (cached: CachedAvatar)
    ensures
        cached.avatar.mime == mime,
        cached.avatar.data == data,
        cached.avatar.size == bytes_size,
        cached.pixels_size == pixels_size,
        cached.refresh_at == parsed_datetime(refresh_at@, DATETIME_FORMAT@),
{
    CachedAvatar {
        avatar: AvatarMaybe { data, mime, size: bytes_size },
        pixels_size,
        refresh_at: parse_datetime_string(refresh_at),
    }
}

/// The size that is stored for an avatar: its own, or zero where the
/// author has none.
pub fn stored_size(avatar: &Option<Avatar>) -> (size: AvatarBytesSize)
    ensures
        size == match *avatar {
            Some(avatar) => avatar.size,
            None => 0,
        },
{
    match avatar {
        Some(avatar) => avatar.size,
        None => 0,
    }
}

} // verus!
