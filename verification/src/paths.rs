//! Pieces of actor paths such as `akka.tcp://Sys@host:1234/user/foo`.

use vstd::prelude::*;
use crate::text::{find_from, first_index, occurs_at, push_char};

verus! {

/// The part of `s` before the first `'/'` at or after `from`, starting
/// at `from` (all of the rest when there is none).
pub open spec fn segment_from(s: Seq<char>, from: int) -> Seq<char> {
    match first_index(s, "/"@, from) {
        Some(j) => s.subrange(from, j),
        None => s.skip(from),
    }
}

/// The user-level name in a path: the segment right after the first
/// `"/user/"`.
pub open spec fn user_name_of(path: Seq<char>) -> Option<Seq<char>> {
    match first_index(path, "/user/"@, 0) {
        Some(i) => Some(segment_from(path, i + "/user/"@.len())),
        None => None,
    }
}

/// The address part of a path: everything before the first `'/'` that
/// follows the first `"://"`; `None` when there is no `"://"`.
pub open spec fn address_part_of(path: Seq<char>) -> Option<Seq<char>> {
    match first_index(path, "://"@, 0) {
        Some(i) => {
            let from = i + "://"@.len();
            match first_index(path, "/"@, from) {
                Some(j) => Some(path.take(j)),
                None => Some(path),
            }
        },
        None => None,
    }
}

/// The user-level actor name in `path`, if it has one.
pub fn extract_user_name(path: &str) -> (r: Option<&str>)
    ensures
        match r {
            Some(n) => user_name_of(path@) == Some(n@),
            None => user_name_of(path@) is None,
        },
{
    let n = path.unicode_len();
    match find_from(path, "/user/", 0) {
        Some(i) => {
            let start = i + "/user/".unicode_len();
            match find_from(path, "/", start) {
                Some(j) => Some(path.substring_char(start, j)),
                None => Some(path.substring_char(start, n)),
            }
        },
        None => None,
    }
}

/// The address part of `path`, if it has a scheme.
pub fn address_part(path: &str) -> (r: Option<&str>)
    ensures
        match r {
            Some(a) => address_part_of(path@) == Some(a@),
            None => address_part_of(path@) is None,
        },
{
    let n = path.unicode_len();
    match find_from(path, "://", 0) {
        Some(i) => {
            let from = i + "://".unicode_len();
            match find_from(path, "/", from) {
                Some(j) => Some(path.substring_char(0, j)),
                None => Some(path.substring_char(0, n)),
            }
        },
        None => None,
    }
}

/// Replaces every character other than ASCII letters, digits, `'-'` and
/// `'_'` with `'_'`.
pub open spec fn sanitized(s: Seq<char>) -> Seq<char> {
    s.map_values(
        |c: char|
            if ('a' <= c && c <= 'z') || ('A' <= c && c <= 'Z') || ('0' <= c && c <= '9') || c
                == '-' || c == '_' {
                c
            } else {
                '_'
            },
    )
}

pub fn sanitize(s: &str) -> (r: String)
    ensures
        r@ == sanitized(s@),
{
    let n = s.unicode_len();
    let mut out = String::new();
    let mut i: usize = 0;
    while i < n
        invariant
            n == s@.len(),
            i <= n,
            out@ == sanitized(s@.take(i as int)),
        decreases n - i,
    {
        let c = s.get_char(i);
        let keep = ('a' <= c && c <= 'z') || ('A' <= c && c <= 'Z') || ('0' <= c && c <= '9') || c
            == '-' || c == '_';
        if keep {
            push_char(&mut out, c);
        } else {
            push_char(&mut out, '_');
        }
        proof {
            assert(s@.take(i + 1) =~= s@.take(i as int).push(c));
            assert(sanitized(s@.take(i + 1)) =~= sanitized(s@.take(i as int)).push(
                if keep { c } else { '_' },
            ));
        }
        i = i + 1;
    }
    assert(s@.take(n as int) =~= s@);
    out
}

/// The path of the user-level actor `name` of the local actor system
/// `system`: `akka://<system>/user/<name>`.
pub open spec fn user_actor_path_of(system: Seq<char>, name: Seq<char>) -> Seq<char> {
    "akka://"@ + system + "/user/"@ + name
}

/// Builds the path of the user-level actor `name` of the system `system`.
pub fn user_actor_path(system: &str, name: &str) -> (r: String)
    ensures
        r@ == user_actor_path_of(system@, name@),
{
    let mut r = String::from_str("akka://");
    r.append(system);
    r.append("/user/");
    r.append(name);
    r
}

} // verus!
