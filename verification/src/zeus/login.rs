//! Signing in: what the remote system answers, and whether it let us in.

use vstd::prelude::*;
use crate::text::{pair_views, same_chars, to_chars};

verus! {

/// The address of the remote system.
pub const ORIGIN: &'static str = "https://zeus.gist.ac.kr";

/// The path to which the name and the password are sent.
pub const LOGIN_PATH: &'static str = "/sys/login/auth.do?callback=";

/// The path of the page from which signing in must seem to come.
pub const LOGIN_REFERER_PATH: &'static str = "/sys/main/login.do";

/// The path under which the remote system describes the user.
pub const ROLE_PATH: &'static str = "/sys/main/role.do";

/// The name of the cookie that bears the session token.
pub const SESSION_COOKIE: &'static str = "WMONID";

/// The key under which the answer to signing in bears its error message.
pub const ERROR_KEY: &'static str = "error_msg";

/// What a JSON object holds under a key.
#[derive(Clone, Debug, PartialEq, Eq)]
pub enum JsonMember {
    /// The object has no such key.
    Missing,
    /// The key bears a string.
    Text(String),
    /// The key bears a value that is no string.
    Other,
}

/// A `JsonMember` with its text as a character sequence.
pub enum MemberView {
    Missing,
    Text(Seq<char>),
    Other,
}

impl View for JsonMember {
    type V = MemberView;

    open spec fn view(&self) -> MemberView {
        match *self {
            JsonMember::Missing => MemberView::Missing,
            JsonMember::Text(s) => MemberView::Text(s@),
            JsonMember::Other => MemberView::Other,
        }
    }
}

/// The members of the JSON object that `text` writes, as `serde_json` reads
/// it: each key with the string that it bears, or with nothing where it
/// bears a value that is no string. Nothing where `text` writes no JSON
/// object.
pub uninterp spec fn json_object(text: Seq<char>) -> Option<Seq<(Seq<char>, Option<Seq<char>>)>>;

/// The keys and strings of `members`, as character sequences.
pub open spec fn entry_views(members: Seq<(String, Option<String>)>) -> Seq<
    (Seq<char>, Option<Seq<char>>),
> {
    members.map_values(
        |m: (String, Option<String>)|
            (
                m.0@,
                match m.1 {
                    Some(s) => Some(s@),
                    None => None,
                },
            ),
    )
}

/// `serde_json::from_str` into a `serde_json::Map`: the members of the JSON
/// object that `text` writes, in the order in which the map hands them out.
/// The answer depends on `text` alone.
#[verifier::external_body]
fn read_json_object(text: &str) -> (r: Option<Vec<(String, Option<String>)>>)
    ensures
        match r {
            Some(members) => json_object(text@) == Some(entry_views(members@)),
            None => json_object(text@) is None,
        },
{
    let object: serde_json::Map<String, serde_json::Value> = serde_json::from_str(text).ok()?;
    let mut members = Vec::new();
    for (key, value) in object {
        match value {
            serde_json::Value::String(s) => members.push((key, Some(s))),
            _ => members.push((key, None)),
        }
    }
    Some(members)
}

/// What `members` hold under `key`: what the first member of this key
/// bears.
pub open spec fn member_of(
    members: Seq<(Seq<char>, Option<Seq<char>>)>,
    key: Seq<char>,
) -> MemberView
    decreases members.len(),
{
    if members.len() == 0 {
        MemberView::Missing
    } else {
        match member_of(members.drop_last(), key) {
            MemberView::Missing => if members.last().0 == key {
                match members.last().1 {
                    Some(s) => MemberView::Text(s),
                    None => MemberView::Other,
                }
            } else {
                MemberView::Missing
            },
            found => found,
        }
    }
}

/// What the JSON object that `text` writes holds under `key`; nothing where
/// `text` writes no JSON object.
pub open spec fn json_member(text: Seq<char>, key: Seq<char>) -> Option<MemberView> {
    match json_object(text) {
        Some(members) => Some(member_of(members, key)),
        None => None,
    }
}

/// A member found among the first `k` members is the member found among all.
pub proof fn lemma_member_stays(
    members: Seq<(Seq<char>, Option<Seq<char>>)>,
    key: Seq<char>,
    k: int,
)
    requires
        0 <= k <= members.len(),
        !(member_of(members.take(k), key) is Missing),
    ensures
        member_of(members, key) == member_of(members.take(k), key),
    decreases members.len() - k,
{
    if k == members.len() {
        assert(members.take(k) =~= members);
    } else {
        assert(members.drop_last().take(k) =~= members.take(k));
        lemma_member_stays(members.drop_last(), key, k);
    }
}

/// What `members` hold under `key`.
pub fn find_member(members: &Vec<(String, Option<String>)>, key: &str) -> (r: JsonMember)
    ensures
        r@ == member_of(entry_views(members@), key@),
{
    let ghost all = entry_views(members@);
    let wanted = to_chars(key);
    let mut i: usize = 0;
    assert(all.take(0).len() == 0);
    while i < members.len()
        invariant
            i <= members.len(),
            all == entry_views(members@),
            wanted@ == key@,
            member_of(all.take(i as int), key@) is Missing,
        decreases members.len() - i,
    {
        proof {
            assert(all.take(i + 1).drop_last() =~= all.take(i as int));
        }
        if same_chars(&to_chars(members[i].0.as_str()), &wanted) {
            proof {
                lemma_member_stays(all, key@, i + 1);
            }
            return match &members[i].1 {
                Some(s) => JsonMember::Text(s.clone()),
                None => JsonMember::Other,
            };
        }
        i += 1;
    }
    assert(all.take(members.len() as int) =~= all);
    JsonMember::Missing
}

/// Whether the answer `member` to signing in says that we are in: it must
/// bear an error message, and the message must be empty.
pub open spec fn admits(member: Option<MemberView>) -> bool {
    member matches Some(MemberView::Text(message)) && message.len() == 0
}

/// Whether the answer to signing in, read as `member`, says that we are in.
pub fn login_admitted(member: &Option<JsonMember>) -> (r: bool)
    ensures
        r == admits(
            match *member {
                Some(m) => Some(m@),
                None => None,
            },
        ),
{
    match member {
        Some(JsonMember::Text(message)) => message.as_str().unicode_len() == 0,
        _ => false,
    }
}

/// Whether the answer `text` to signing in says that we are in: it must be
/// a JSON object that bears an empty error message.
pub fn login_succeeded(text: &str) -> (r: bool)
    ensures
        r == admits(json_member(text@, ERROR_KEY@)),
{
    let member = match read_json_object(text) {
        Some(members) => Some(find_member(&members, ERROR_KEY)),
        None => None,
    };
    login_admitted(&member)
}

/// The session token among the cookies `cookies`, each a name and a value:
/// the value of the first cookie that bears the name of the session cookie.
pub open spec fn session_token(cookies: Seq<(Seq<char>, Seq<char>)>) -> Option<Seq<char>>
    decreases cookies.len(),
{
    if cookies.len() == 0 {
        None
    } else {
        match session_token(cookies.drop_last()) {
            Some(token) => Some(token),
            None => if cookies.last().0 == SESSION_COOKIE@ {
                Some(cookies.last().1)
            } else {
                None
            },
        }
    }
}

/// A token found among the first `k` cookies is the token of them all.
pub proof fn lemma_token_stays(cookies: Seq<(Seq<char>, Seq<char>)>, k: int)
    requires
        0 <= k <= cookies.len(),
        session_token(cookies.take(k)) is Some,
    ensures
        session_token(cookies) == session_token(cookies.take(k)),
    decreases cookies.len() - k,
{
    if k == cookies.len() {
        assert(cookies.take(k) =~= cookies);
    } else {
        assert(cookies.drop_last().take(k) =~= cookies.take(k));
        lemma_token_stays(cookies.drop_last(), k);
    }
}

/// The session token among the cookies `cookies`.
pub fn find_session_token(cookies: &Vec<(String, String)>) -> (r: Option<String>)
    ensures
        match r {
            Some(token) => session_token(pair_views(cookies@)) == Some(token@),
            None => session_token(pair_views(cookies@)) is None,
        },
{
    let ghost all = pair_views(cookies@);
    let wanted = to_chars(SESSION_COOKIE);
    let mut i: usize = 0;
    while i < cookies.len()
        invariant
            i <= cookies.len(),
            all == pair_views(cookies@),
            wanted@ == SESSION_COOKIE@,
            session_token(all.take(i as int)) is None,
        decreases cookies.len() - i,
    {
        proof {
            assert(all.take(i + 1).drop_last() =~= all.take(i as int));
        }
        let name = to_chars(cookies[i].0.as_str());
        if same_chars(&name, &wanted) {
            proof {
                lemma_token_stays(all, i + 1);
            }
            return Some(cookies[i].1.clone());
        }
        i += 1;
    }
    assert(all.take(cookies.len() as int) =~= all);
    None
}

} // verus!
