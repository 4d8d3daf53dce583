//! Room and server taken from the page address, and the WebSocket address of
//! the collaboration server.
use vstd::prelude::*;
use crate::text_util::{ends_with, starts_with, str_equals, trim_white_space, trimmed};

verus! {

// ---------------------------------------------------------------------------
// Query parameters
// ---------------------------------------------------------------------------

/// The characters that open a query string or a fragment.
pub open spec fn is_mark(c: char) -> bool {
    c == '?' || c == '#'
}

/// The text without the `?` and `#` characters it starts with.
pub open spec fn strip_marks(s: Seq<char>) -> Seq<char>
    decreases s.len(),
{
    if s.len() > 0 && is_mark(s[0]) {
        strip_marks(s.drop_first())
    } else {
        s
    }
}

/// The `&`-separated pieces of a text (one empty piece for an empty text).
pub open spec fn segments(s: Seq<char>) -> Seq<Seq<char>>
    decreases s.len(),
{
    if s.len() == 0 {
        seq![Seq::empty()]
    } else {
        let init = segments(s.drop_last());
        if s.last() == '&' {
            init.push(Seq::empty())
        } else {
            init.update(init.len() - 1, init.last().push(s.last()))
        }
    }
}

/// A piece split at its first `=` into key and value; `None` when it has no `=`.
pub open spec fn key_value(piece: Seq<char>) -> Option<(Seq<char>, Seq<char>)>
    decreases piece.len(),
{
    if piece.len() == 0 {
        None
    } else {
        match key_value(piece.drop_last()) {
            Some((k, v)) => Some((k, v.push(piece.last()))),
            None => if piece.last() == '=' {
                Some((piece.drop_last(), Seq::empty()))
            } else {
                None
            },
        }
    }
}

/// Whether a piece gives `key` a non-empty value.
pub open spec fn gives(piece: Seq<char>, key: Seq<char>) -> bool {
    key_value(piece) matches Some((k, v)) && k == key && v.len() > 0
}

/// The value the last of the pieces that gives `key` a non-empty value gives it.
pub open spec fn param_in(pieces: Seq<Seq<char>>, key: Seq<char>) -> Option<Seq<char>>
    decreases pieces.len(),
{
    if pieces.len() == 0 {
        None
    } else if gives(pieces.last(), key) {
        Some(key_value(pieces.last()).unwrap().1)
    } else {
        param_in(pieces.drop_last(), key)
    }
}

/// The value of `key` in a query string or fragment such as
/// `?room=abc123&server=localhost:3030`.
pub open spec fn query_param(s: Seq<char>, key: Seq<char>) -> Option<Seq<char>> {
    param_in(segments(strip_marks(s)), key)
}

/// The text of an optional string.
pub open spec fn opt_text(o: Option<String>) -> Option<Seq<char>> {
    match o {
        Some(s) => Some(s@),
        None => None,
    }
}

/// Record the finished piece `s[start..end]`, whose first `=` (if any) is at
/// `eq`: a `room` or `server` key with a non-empty value sets that parameter.
fn finish_piece(
    room: &mut Option<String>,
    server: &mut Option<String>,
    s: &str,
    start: usize,
    eq: Option<usize>,
    end: usize,
)
    requires
        start <= end <= s@.len(),
        key_value(s@.subrange(start as int, end as int)) == match eq {
            Some(e) => Some((s@.subrange(start as int, e as int), s@.subrange(e + 1, end as int))),
            None => None::<(Seq<char>, Seq<char>)>,
        },
        eq matches Some(e) ==> start <= e < end,
    ensures
        ({
            let piece = s@.subrange(start as int, end as int);
            &&& opt_text(*final(room)) == if gives(piece, "room"@) {
                Some(key_value(piece).unwrap().1)
            } else {
                opt_text(*old(room))
            }
            &&& opt_text(*final(server)) == if gives(piece, "server"@) {
                Some(key_value(piece).unwrap().1)
            } else {
                opt_text(*old(server))
            }
        }),
{
    if let Some(e) = eq {
        let value = s.substring_char(e + 1, end);
        if value.unicode_len() > 0 {
            let key = s.substring_char(start, e);
            proof {
                reveal_strlit("room");
                reveal_strlit("server");
                assert("room"@.len() == 4 && "server"@.len() == 6);
            }
            if str_equals(key, "room") {
                *room = Some(value.to_owned());
            } else if str_equals(key, "server") {
                *server = Some(value.to_owned());
            }
        }
    }
}

/// Parse room and server parameters from a query string or hash: the value of
/// the last `room=` (and `server=`) with a non-empty value, after the leading
/// `?` or `#` characters.
pub fn parse_params(s: &str) -> (r: (Option<String>, Option<String>))
    ensures
        opt_text(r.0) == query_param(s@, "room"@),
        opt_text(r.1) == query_param(s@, "server"@),
{
    let n = s.unicode_len();
    let mut i: usize = 0;
    proof {
        assert(s@.subrange(0, n as int) =~= s@);
    }
    while i < n && (s.get_char(i) == '?' || s.get_char(i) == '#')
        invariant
            n == s@.len(),
            i <= n,
            strip_marks(s@) == strip_marks(s@.subrange(i as int, n as int)),
        decreases n - i,
    {
        proof {
            assert(s@.subrange(i as int, n as int).drop_first() =~= s@.subrange(i + 1, n as int));
        }
        i = i + 1;
    }
    let start = i;
    proof {
        let t = s@.subrange(start as int, n as int);
        if t.len() > 0 {
            assert(t[0] == s@[start as int]);
        }
        assert(strip_marks(t) == t);
        assert(s@.subrange(start as int, start as int) =~= Seq::<char>::empty());
        assert(segments(Seq::<char>::empty()) == seq![Seq::<char>::empty()]);
    }
    let mut room: Option<String> = None;
    let mut server: Option<String> = None;
    let mut piece_start = start;
    let mut eq: Option<usize> = None;
    let ghost mut done: Seq<Seq<char>> = Seq::empty();
    let mut j = start;
    while j < n
        invariant
            n == s@.len(),
            start <= piece_start <= j <= n,
            strip_marks(s@) == s@.subrange(start as int, n as int),
            segments(s@.subrange(start as int, j as int)) == done.push(
                s@.subrange(piece_start as int, j as int),
            ),
            key_value(s@.subrange(piece_start as int, j as int)) == match eq {
                Some(e) => Some(
                    (s@.subrange(piece_start as int, e as int), s@.subrange(e + 1, j as int)),
                ),
                None => None::<(Seq<char>, Seq<char>)>,
            },
            eq matches Some(e) ==> piece_start <= e < j,
            opt_text(room) == param_in(done, "room"@),
            opt_text(server) == param_in(done, "server"@),
        decreases n - j,
    {
        let c = s.get_char(j);
        let ghost p = s@.subrange(start as int, j as int);
        let ghost cur = s@.subrange(piece_start as int, j as int);
        proof {
            assert(s@.subrange(start as int, j + 1) =~= p.push(c));
            assert(p.push(c).drop_last() =~= p);
        }
        if c == '&' {
            finish_piece(&mut room, &mut server, s, piece_start, eq, j);
            proof {
                assert(done.push(cur).drop_last() =~= done);
                done = done.push(cur);
                assert(s@.subrange(j + 1, j + 1) =~= Seq::<char>::empty());
            }
            piece_start = j + 1;
            eq = None;
        } else {
            proof {
                assert(s@.subrange(piece_start as int, j + 1) =~= cur.push(c));
                assert(cur.push(c).drop_last() =~= cur);
                assert(done.push(cur).update(done.len() as int, cur.push(c)) =~= done.push(
                    cur.push(c),
                ));
                if let Some(e) = eq {
                    assert(s@.subrange(e + 1, j + 1) =~= s@.subrange(e + 1, j as int).push(c));
                } else if c == '=' {
                    assert(s@.subrange(j + 1, j + 1) =~= Seq::<char>::empty());
                    assert(s@.subrange(piece_start as int, j as int) =~= cur);
                }
            }
            if eq.is_none() && c == '=' {
                eq = Some(j);
            }
        }
        j = j + 1;
    }
    finish_piece(&mut room, &mut server, s, piece_start, eq, n);
    proof {
        let cur = s@.subrange(piece_start as int, n as int);
        assert(done.push(cur).drop_last() =~= done);
    }
    (room, server)
}

/// URL parameters for auto-joining a room.
pub struct UrlParams {
    /// Room ID to join.
    pub room: Option<String>,
    /// Server host:port (e.g., "localhost:3030").
    pub server: Option<String>,
}

/// The first of two optional values that is there.
pub open spec fn first_some<T>(a: Option<T>, b: Option<T>) -> Option<T> {
    if a is Some {
        a
    } else {
        b
    }
}

/// The parameter of the page address: from the query string when it names
/// it, else from the fragment.
pub open spec fn page_param(search: Option<&str>, hash: Option<&str>, key: Seq<char>) -> Option<
    Seq<char>,
> {
    first_some(
        match search {
            Some(s) => query_param(s@, key),
            None => None,
        },
        match hash {
            Some(h) => query_param(h@, key),
            None => None,
        },
    )
}

impl UrlParams {
    /// Room and server from the page address's query string (such as
    /// `?room=abc123&server=host:port`) and fragment (`#room=...`), each
    /// where it could be read; the query string takes precedence.
    pub fn from_address(search: Option<&str>, hash: Option<&str>) -> (p: UrlParams)
        ensures
            opt_text(p.room) == page_param(search, hash, "room"@),
            opt_text(p.server) == page_param(search, hash, "server"@),
    {
        let mut room: Option<String> = None;
        let mut server: Option<String> = None;
        if let Some(s) = search {
            let params = parse_params(s);
            room = params.0;
            server = params.1;
        }
        if let Some(h) = hash {
            let params = parse_params(h);
            if room.is_none() {
                room = params.0;
            }
            if server.is_none() {
                server = params.1;
            }
        }
        UrlParams { room, server }
    }
}

// ---------------------------------------------------------------------------
// Server address
// ---------------------------------------------------------------------------

/// The text without the `/` characters it ends with.
pub open spec fn trim_end_slashes(s: Seq<char>) -> Seq<char>
    decreases s.len(),
{
    if s.len() > 0 && s.last() == '/' {
        trim_end_slashes(s.drop_last())
    } else {
        s
    }
}

/// The WebSocket address for a server given by the user: trimmed, with
/// `ws://` put in front unless it names `ws://` or `wss://`, and `/ws` put at
/// the end (after removing trailing slashes) unless it is there.
pub open spec fn server_url_spec(server: Seq<char>) -> Seq<char> {
    let t = trimmed(server);
    if "ws://"@.is_prefix_of(t) || "wss://"@.is_prefix_of(t) {
        if "/ws"@.is_suffix_of(t) {
            t
        } else {
            trim_end_slashes(t) + "/ws"@
        }
    } else {
        "ws://"@ + trim_end_slashes(t) + "/ws"@
    }
}

/// Whatever server is given, its WebSocket URL names the `/ws` endpoint, and
/// a server given without a scheme is reached over `ws://`.
pub proof fn lemma_server_url_names_ws_endpoint(server: Seq<char>)
    ensures
        "/ws"@.is_suffix_of(server_url_spec(server)),
        !("ws://"@.is_prefix_of(trimmed(server)) || "wss://"@.is_prefix_of(trimmed(server)))
            ==> "ws://"@.is_prefix_of(server_url_spec(server)),
{
    reveal_strlit("/ws");
    reveal_strlit("ws://");
    let t = trimmed(server);
    let u = server_url_spec(server);
    if "ws://"@.is_prefix_of(t) || "wss://"@.is_prefix_of(t) {
        if !"/ws"@.is_suffix_of(t) {
            assert(u.subrange(u.len() - 3, u.len() as int) =~= "/ws"@);
        }
    } else {
        let b = "ws://"@ + trim_end_slashes(t);
        assert(u == b + "/ws"@);
        assert(u.subrange(u.len() - 3, u.len() as int) =~= "/ws"@);
        assert(u.subrange(0, 5) =~= "ws://"@);
    }
}

/// Number of characters left of `s` once its trailing slashes are removed.
fn len_without_end_slashes(s: &str) -> (n: usize)
    ensures
        n <= s@.len(),
        s@.subrange(0, n as int) == trim_end_slashes(s@),
{
    let mut n = s.unicode_len();
    proof {
        assert(s@.subrange(0, n as int) =~= s@);
    }
    while n > 0 && s.get_char(n - 1) == '/'
        invariant
            n <= s@.len(),
            trim_end_slashes(s@) == trim_end_slashes(s@.subrange(0, n as int)),
        decreases n,
    {
        proof {
            assert(s@.subrange(0, n as int).drop_last() =~= s@.subrange(0, n - 1));
        }
        n = n - 1;
    }
    n
}

/// The WebSocket URL for a server given in the page address (a `host:port`,
/// or a full `ws://` or `wss://` URL).
pub fn server_url_from_param(server: &str) -> (url: String)
    ensures
        url@ == server_url_spec(server@),
{
    let t = trim_white_space(server);
    let mut url = String::new();
    if starts_with(t, "ws://") || starts_with(t, "wss://") {
        if ends_with(t, "/ws") {
            url.append(t);
        } else {
            let n = len_without_end_slashes(t);
            url.append(t.substring_char(0, n));
            url.append("/ws");
        }
    } else {
        url.append("ws://");
        let n = len_without_end_slashes(t);
        url.append(t.substring_char(0, n));
        url.append("/ws");
    }
    proof {
        assert(Seq::<char>::empty() + t@ =~= t@);
    }
    url
}

/// The WebSocket address of the page's own origin: `wss:` for a page served
/// over `https:`, `ws:` otherwise, then `//`, the host and `/ws`.
pub open spec fn origin_url_spec(protocol: Seq<char>, host: Seq<char>) -> Seq<char> {
    (if protocol == "https:"@ {
        "wss:"@
    } else {
        "ws:"@
    }) + "//"@ + host + "/ws"@
}

/// The WebSocket URL of the server the page came from.
pub fn server_url_from_origin(protocol: &str, host: &str) -> (url: String)
    ensures
        url@ == origin_url_spec(protocol@, host@),
{
    let mut url = String::new();
    if str_equals(protocol, "https:") {
        url.append("wss:");
    } else {
        url.append("ws:");
    }
    url.append("//");
    url.append(host);
    url.append("/ws");
    url
}

} // verus!
