//! X/Twitter: handle normalization and reading public profile pages.
use vstd::prelude::*;
use crate::fetch::FetchError;
use crate::social::{cookie_value, cookie_views, find_cookie, opt_view, CookieEntry, Tweet, XProfile};
use crate::text::{
    append, chars_of, contains, join, contains_any, contains_any_str, contains_str, lines, lines_of,
    starts_with, starts_with_any, starts_with_any_str, starts_with_str, str_views, string_of, trim,
    trim_end_char, trim_end_char_of, trim_of, trim_start_matches, trim_start_matches_str, utf8_len,
    utf8_len_lt, views, vviews,
};

verus! {

/// A bare handle from `@handle`, `https://x.com/handle` or
/// `https://twitter.com/handle` (trailing `/` removed).
pub open spec fn handle_of(input: Seq<char>) -> Seq<char> {
    trim_end_char(
        trim_start_matches(
            trim_start_matches(trim_start_matches(input, "@"@), "https://x.com/"@),
            "https://twitter.com/"@,
        ),
        '/',
    )
}

/// The bare handle in `input`.
pub fn normalize_handle(input: &str) -> (h: String)
    ensures
        h@ == handle_of(input@),
{
    let c = chars_of(input);
    let a = trim_start_matches_str(c.as_slice(), "@");
    let b = trim_start_matches_str(a, "https://x.com/");
    let d = trim_start_matches_str(b, "https://twitter.com/");
    string_of(trim_end_char_of(d, '/'))
}

/// The profile page URL for a handle.
pub fn profile_url(handle: &str) -> (url: String)
    ensures
        url@ == "https://x.com/"@ + handle@,
{
    let mut v = chars_of("https://x.com/");
    append(&mut v, chars_of(handle).as_slice());
    string_of(v.as_slice())
}

/// Prefixes that keep a line from being the bio.
pub open spec fn bio_bad_starts() -> Seq<Seq<char>> {
    seq!["["@, "*"@, "#"@, "Title:"@, "URL "@, "Markdown"@, "!["@]
}

/// Words that keep a line from being the bio.
pub open spec fn bio_bad_words() -> Seq<Seq<char>> {
    seq!["Sign in"@, "posts"@, "x.com"@, "twitter.com"@, "Square profile"@]
}

/// A (trimmed) line that can be the bio: 11 to 299 bytes of plain text.
pub open spec fn is_bio(l: Seq<char>) -> bool {
    &&& l.len() > 0
    &&& utf8_len(l) > 10
    &&& utf8_len(l) < 300
    &&& !starts_with_any(l, bio_bad_starts())
    &&& !contains_any(l, bio_bad_words())
}

/// The first trimmed line that can be the bio.
pub open spec fn first_bio(ls: Seq<Seq<char>>) -> Option<Seq<char>>
    decreases ls.len(),
{
    if ls.len() == 0 {
        None
    } else if is_bio(trim(ls[0])) {
        Some(trim(ls[0]))
    } else {
        first_bio(ls.drop_first())
    }
}

/// A (trimmed) line that continues the post being read.
pub open spec fn is_post_line(l: Seq<char>) -> bool {
    l.len() > 0 && !starts_with(l, "!["@) && !starts_with(l, "[!["@) && !contains(l, "x.com"@)
        && utf8_len(l) > 10
}

/// The state of the scan for posts.
pub struct PostScan {
    pub posts: Seq<Seq<char>>,
    pub in_post: bool,
    pub text: Seq<char>,
}

/// How one line changes the post scan: a profile picture line closes the post
/// being read and starts a new one; other text lines inside a post are appended
/// to it, separated by a space.
pub open spec fn post_step(st: PostScan, line: Seq<char>) -> PostScan {
    let l = trim(line);
    if contains(l, "Square profile picture"@) {
        PostScan {
            posts: if st.text.len() > 0 {
                st.posts.push(trim(st.text))
            } else {
                st.posts
            },
            in_post: true,
            text: Seq::empty(),
        }
    } else if st.in_post && is_post_line(l) {
        PostScan {
            text: if st.text.len() > 0 {
                st.text.push(' ') + l
            } else {
                l
            },
            ..st
        }
    } else {
        st
    }
}

/// The post scan after the lines `ls`.
pub open spec fn post_scan(ls: Seq<Seq<char>>) -> PostScan
    decreases ls.len(),
{
    if ls.len() == 0 {
        PostScan { posts: Seq::empty(), in_post: false, text: Seq::empty() }
    } else {
        post_step(post_scan(ls.drop_last()), ls.last())
    }
}

/// The posts a page holds: those the scan closed, then the last one read if
/// fewer than 20 were closed.
pub open spec fn posts_of(ls: Seq<Seq<char>>) -> Seq<Seq<char>> {
    let st = post_scan(ls);
    if st.text.len() > 0 && st.posts.len() < 20 {
        st.posts.push(trim(st.text))
    } else {
        st.posts
    }
}

/// A line that starts a post: it mentions the profile picture.
pub open spec fn is_picture_line(line: Seq<char>) -> bool {
    contains(trim(line), "Square profile picture"@)
}

/// The trimmed lines.
pub open spec fn trimmed_lines(ls: Seq<Seq<char>>) -> Seq<Seq<char>> {
    ls.map_values(|l: Seq<char>| trim(l))
}

/// A post holds every text line after its profile picture line, in order: after
/// a picture line and text lines that each continue a post, the post being
/// read is those lines, trimmed and joined by single spaces.
pub proof fn law_post_joins_its_lines(before: Seq<Seq<char>>, picture: Seq<char>, text: Seq<Seq<char>>)
    requires
        is_picture_line(picture),
        forall|k: int|
            0 <= k < text.len() ==> !is_picture_line(#[trigger] text[k]) && is_post_line(trim(text[k])),
    ensures
        post_scan(before.push(picture) + text).in_post,
        post_scan(before.push(picture) + text).text == join(trimmed_lines(text), " "@),
        post_scan(before.push(picture) + text).posts == post_scan(before.push(picture)).posts,
    decreases text.len(),
{
    reveal_strlit(" ");
    let all = before.push(picture) + text;
    if text.len() == 0 {
        assert(all =~= before.push(picture));
        assert(before.push(picture).drop_last() =~= before);
        assert(trimmed_lines(text) =~= Seq::<Seq<char>>::empty());
    } else {
        let t = text.drop_last();
        assert forall|k: int| 0 <= k < t.len() implies !is_picture_line(#[trigger] t[k]) && is_post_line(
            trim(t[k]),
        ) by {
            assert(t[k] == text[k]);
        }
        law_post_joins_its_lines(before, picture, t);
        assert(all.drop_last() =~= before.push(picture) + t);
        let last = text[text.len() - 1];
        assert(all.last() == last);
        assert(!is_picture_line(last) && is_post_line(trim(last)));
        assert(trimmed_lines(text).drop_last() =~= trimmed_lines(t));
        assert(trimmed_lines(text).last() == trim(last));
        let prev = join(trimmed_lines(t), " "@);
        if t.len() == 0 {
            assert(trimmed_lines(t) =~= Seq::<Seq<char>>::empty());
            assert(prev.len() == 0);
            assert(trimmed_lines(text).len() == 1);
        } else {
            assert(trimmed_lines(t).last() == trim(t[t.len() - 1]));
            lemma_join_not_empty(trimmed_lines(t));
            assert(prev.push(' ') + trim(last) =~= prev + " "@ + trim(last));
        }
    }
}

/// The next profile picture line closes the post being read: the post found
/// is its text lines, trimmed and joined by single spaces, then trimmed.
pub proof fn law_picture_closes_post(
    before: Seq<Seq<char>>,
    picture: Seq<char>,
    text: Seq<Seq<char>>,
    next: Seq<char>,
)
    requires
        is_picture_line(picture),
        is_picture_line(next),
        text.len() > 0,
        forall|k: int|
            0 <= k < text.len() ==> !is_picture_line(#[trigger] text[k]) && is_post_line(trim(text[k])),
    ensures
        post_scan((before.push(picture) + text).push(next)).posts == post_scan(before.push(picture)).posts.push(
            trim(join(trimmed_lines(text), " "@)),
        ),
        post_scan((before.push(picture) + text).push(next)).text.len() == 0,
{
    law_post_joins_its_lines(before, picture, text);
    let all = before.push(picture) + text;
    assert(all.push(next).drop_last() =~= all);
    assert(trimmed_lines(text).last() == trim(text[text.len() - 1]));
    assert(is_post_line(trim(text[text.len() - 1])));
    lemma_join_not_empty(trimmed_lines(text));
}

/// Joining non-empty lines gives a non-empty text when there is a line.
proof fn lemma_join_not_empty(v: Seq<Seq<char>>)
    requires
        v.len() > 0,
        v.last().len() > 0,
    ensures
        join(v, " "@).len() > 0,
{
}

/// The texts of a list of posts.
pub open spec fn tweet_texts(ts: Seq<Tweet>) -> Seq<Seq<char>> {
    ts.map_values(|t: Tweet| t.text@)
}

fn is_bio_exec(l: &[char]) -> (r: bool)
    ensures
        r == is_bio(l@),
{
    let starts: [&str; 7] = ["[", "*", "#", "Title:", "URL ", "Markdown", "!["];
    let words: [&str; 5] = ["Sign in", "posts", "x.com", "twitter.com", "Square profile"];
    assert(str_views(starts@) =~= bio_bad_starts());
    assert(str_views(words@) =~= bio_bad_words());
    l.len() > 0 && !utf8_len_lt(l, 11) && utf8_len_lt(l, 300) && !starts_with_any_str(l, &starts)
        && !contains_any_str(l, &words)
}

fn first_bio_of(ls: &Vec<Vec<char>>) -> (r: Option<String>)
    ensures
        opt_view(r) == first_bio(vviews(ls@)),
{
    let mut i: usize = 0;
    assert(vviews(ls@).skip(0) =~= vviews(ls@));
    while i < ls.len()
        invariant
            i <= ls@.len(),
            first_bio(vviews(ls@)) == first_bio(vviews(ls@).skip(i as int)),
        decreases ls@.len() - i,
    {
        assert(vviews(ls@).skip(i as int)[0] == ls@[i as int]@);
        assert(vviews(ls@).skip(i as int).drop_first() =~= vviews(ls@).skip(i + 1));
        let l = trim_of(ls[i].as_slice());
        if is_bio_exec(l) {
            return Some(string_of(l));
        }
        i = i + 1;
    }
    None
}

fn tweet_of(text: String) -> (t: Tweet)
    ensures
        t.text@ == text@,
        t.created_at is None,
        t.likes is None,
        t.retweets is None,
{
    Tweet { text, created_at: None, likes: None, retweets: None }
}

/// Reads an X profile page (as the markdown a reader service returns): the
/// handle as given, the first bio-like line, and the posts found after profile
/// picture lines. Follower counts are not on such pages.
pub fn parse_x_markdown(md: &str, handle: &str) -> (p: XProfile)
    ensures
        p.handle@ == handle@,
        opt_view(p.bio) == first_bio(lines(md@)),
        p.followers is None,
        p.following is None,
        tweet_texts(p.recent_tweets@) == posts_of(lines(md@)),
        forall|k: int|
            0 <= k < p.recent_tweets@.len() ==> (#[trigger] p.recent_tweets@[k]).created_at is None
                && p.recent_tweets@[k].likes is None && p.recent_tweets@[k].retweets is None,
{
    let c = chars_of(md);
    let ls = lines_of(c.as_slice());
    let ghost all = lines(md@);
    let bio = first_bio_of(&ls);
    let mut tweets: Vec<Tweet> = Vec::new();
    let mut in_post = false;
    let mut text: Vec<char> = Vec::new();
    let mut i: usize = 0;
    assert(all.take(0) =~= Seq::<Seq<char>>::empty());
    while i < ls.len()
        invariant
            all == vviews(ls@),
            i <= ls@.len(),
            tweet_texts(tweets@) == post_scan(all.take(i as int)).posts,
            in_post == post_scan(all.take(i as int)).in_post,
            text@ == post_scan(all.take(i as int)).text,
            forall|k: int|
                0 <= k < tweets@.len() ==> (#[trigger] tweets@[k]).created_at is None
                    && tweets@[k].likes is None && tweets@[k].retweets is None,
        decreases ls@.len() - i,
    {
        assert(all.take(i + 1).drop_last() =~= all.take(i as int));
        assert(all.take(i + 1).last() == ls@[i as int]@);
        let l = trim_of(ls[i].as_slice());
        if contains_str(l, "Square profile picture") {
            if text.len() > 0 {
                let ghost prev = tweet_texts(tweets@);
                let t = string_of(trim_of(text.as_slice()));
                tweets.push(tweet_of(t));
                assert(tweet_texts(tweets@) =~= prev.push(crate::text::trim(text@)));
            }
            text = Vec::new();
            in_post = true;
        } else if in_post && l.len() > 0 && !starts_with_str(l, "![") && !starts_with_str(l, "[![")
            && !contains_str(l, "x.com") && !utf8_len_lt(l, 11) {
            if text.len() > 0 {
                text.push(' ');
            }
            append(&mut text, l);
        }
        i = i + 1;
    }
    assert(all.take(ls@.len() as int) =~= all);
    if text.len() > 0 && tweets.len() < 20 {
        let ghost prev = tweet_texts(tweets@);
        let t = string_of(trim_of(text.as_slice()));
        tweets.push(tweet_of(t));
        assert(tweet_texts(tweets@) =~= prev.push(crate::text::trim(text@)));
    }
    XProfile {
        handle: string_of(chars_of(handle).as_slice()),
        bio,
        followers: None,
        following: None,
        recent_tweets: tweets,
    }
}

/// An X session from exported cookies.
pub struct XSession {
    pub auth_token: String,
    pub ct0: String,
}

/// A session from exported X cookies: the first `auth_token`, without which
/// there is none, and the first `ct0`, or empty.
pub fn x_session(cookies: &Vec<CookieEntry>) -> (r: Result<XSession, FetchError>)
    ensures
        match cookie_value(cookie_views(cookies@), "auth_token"@) {
            None => r matches Err(FetchError::HttpError(m))
                && m@ == "X cookie expired or missing 'auth_token'. Run: forage login x"@,
            Some(t) => r matches Ok(sess) && sess.auth_token@ == t
                && sess.ct0@ == match cookie_value(cookie_views(cookies@), "ct0"@) {
                Some(c) => c,
                None => Seq::empty(),
            },
        },
{
    let auth_token = match find_cookie(cookies, "auth_token") {
        Some(t) => t,
        None => {
            return Err(
                FetchError::HttpError(
                    string_of(chars_of("X cookie expired or missing 'auth_token'. Run: forage login x").as_slice()),
                ),
            );
        },
    };
    let ct0 = match find_cookie(cookies, "ct0") {
        Some(c) => c,
        None => String::new(),
    };
    Ok(XSession { auth_token, ct0 })
}

} // verus!
