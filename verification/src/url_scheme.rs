//! Parsing of `vibetunnel://` URLs into actions.
//!
//! A URL names an action (open a session, create one, open settings, show
//! the welcome screen) in its path, with percent-encoded parameters in its
//! query string. Dispatching the parsed action needs the application shell;
//! only the parsing lives here.

use vstd::prelude::*;
use crate::assoc::{assoc_find_index, assoc_get, assoc_set, assoc_wf};
use crate::text::{find_char, has_prefix, str_eq, str_find_char, str_starts_with};

verus! {

/// What a `vibetunnel://` URL asks for.
#[derive(Debug)]
pub enum URLSchemeAction {
    OpenSession { session_id: String },
    CreateSession { name: Option<String>, command: Option<String> },
    OpenSettings { tab: Option<String> },
    ShowWelcome,
}

/// The view of an optional owned string.
pub open spec fn opt_string_view(s: Option<String>) -> Option<Seq<char>> {
    match s {
        Some(t) => Some(t@),
        None => None,
    }
}

/// What percent-decoding a query value yields, or `None` when the decoded
/// bytes are not valid text.
pub uninterp spec fn url_decoded(s: Seq<char>) -> Option<Seq<char>>;

/// Relies on urlencoding::decode: percent-decoding, a function of its
/// argument alone; an input without `%` decodes to itself, and decoding
/// fails only on invalid decoded bytes.
#[verifier::external_body]
fn url_decode(s: &str) -> (r: Option<String>)
    ensures
        r is Some <==> url_decoded(s@) is Some,
        r matches Some(v) ==> Some(v@) == url_decoded(s@),
        r is Some || (exists|i: int| 0 <= i < s@.len() && s@[i] == '%'),
        r matches Some(v) ==> ((forall|i: int| 0 <= i < s@.len() ==> s@[i] != '%') ==> v@ == s@),
{
    urlencoding::decode(s).ok().map(|c| c.into_owned())
}

/// The key/decoded-value pair of one `key=value` query segment; empty when
/// the segment has no `=` or its value does not decode.
pub open spec fn pair_of(seg: Seq<char>) -> Seq<(Seq<char>, Seq<char>)> {
    match find_char(seg, '=') {
        None => Seq::empty(),
        Some(e) => {
            let key = seg.subrange(0, e);
            let raw = seg.subrange(e + 1, seg.len() as int);
            match url_decoded(raw) {
                Some(v) => seq![(key, v)],
                None => Seq::empty(),
            }
        },
    }
}

/// The key/decoded-value pairs of a `&`-separated query string, in order.
pub open spec fn params_spec(q: Seq<char>) -> Seq<(Seq<char>, Seq<char>)>
    decreases q.len(),
{
    match find_char(q, '&') {
        None => pair_of(q),
        Some(k) => if 0 <= k < q.len() {
            pair_of(q.subrange(0, k)) + params_spec(q.subrange(k + 1, q.len() as int))
        } else {
            Seq::empty()
        },
    }
}

/// The value of the last pair with the given key, if any (later pairs
/// overwrite earlier ones).
pub open spec fn param_get(ps: Seq<(Seq<char>, Seq<char>)>, k: Seq<char>) -> Option<Seq<char>>
    decreases ps.len(),
{
    if ps.len() == 0 {
        None
    } else if ps.last().0 == k {
        Some(ps.last().1)
    } else {
        param_get(ps.drop_last(), k)
    }
}

/// The path part of a URL with its scheme prefix removed: everything before
/// the first `?`.
pub open spec fn path_of(rest: Seq<char>) -> Seq<char> {
    match find_char(rest, '?') {
        None => rest,
        Some(k) => rest.subrange(0, k),
    }
}

/// The query part: between the first `?` and the second, or to the end when
/// there is no second.
pub open spec fn query_of(rest: Seq<char>) -> Seq<char> {
    match find_char(rest, '?') {
        None => Seq::empty(),
        Some(k) => {
            let tail = rest.subrange(k + 1, rest.len() as int);
            match find_char(tail, '?') {
                None => tail,
                Some(k2) => tail.subrange(0, k2),
            }
        },
    }
}

/// Looking a key up across two parameter runs: the later run wins.
proof fn lemma_param_get_concat(
    a: Seq<(Seq<char>, Seq<char>)>,
    b: Seq<(Seq<char>, Seq<char>)>,
    k: Seq<char>,
)
    ensures
        param_get(a + b, k) == (match param_get(b, k) {
            Some(v) => Some(v),
            None => param_get(a, k),
        }),
    decreases b.len(),
{
    if b.len() == 0 {
        assert(a + b =~= a);
    } else {
        assert((a + b).last() == b.last());
        assert((a + b).drop_last() =~= a + b.drop_last());
        if b.last().0 == k {
        } else {
            lemma_param_get_concat(a, b.drop_last(), k);
        }
    }
}

/// Parse the `&`-separated, percent-encoded query string into key/value
/// entries; a later duplicate key overwrites an earlier one.
fn parse_query(query: &str) -> (r: Vec<(String, String)>)
    ensures
        assoc_wf(r@),
        forall|k: Seq<char>|
            opt_string_view(#[trigger] assoc_get(r@, k)) == param_get(params_spec(query@), k),
{
    let mut out: Vec<(String, String)> = Vec::new();
    let ghost q0 = query@;
    let mut rest: &str = query;
    let ghost mut donev: Seq<(Seq<char>, Seq<char>)> = Seq::empty();
    proof {
        assert(Seq::<(Seq<char>, Seq<char>)>::empty() + params_spec(rest@) =~= params_spec(q0));
    }
    loop
        invariant
            q0 == query@,
            assoc_wf(out@),
            params_spec(q0) =~= donev + params_spec(rest@),
            forall|k: Seq<char>|
                opt_string_view(#[trigger] assoc_get(out@, k)) == param_get(donev, k),
        decreases rest@.len(),
    {
        let ghost done_pre = donev;
        match str_find_char(rest, '&') {
            Some(kpos) => {
                let rlen = rest.unicode_len();
                let seg = rest.substring_char(0, kpos);
                let next = rest.substring_char(kpos + 1, rlen);
                proof {
                    assert(seg@ =~= rest@.subrange(0, kpos as int));
                    assert(next@ =~= rest@.subrange(kpos + 1, rest@.len() as int));
                }
                parse_segment(&mut out, seg);
                proof {
                    donev = donev + pair_of(seg@);
                    assert(params_spec(rest@) == pair_of(seg@) + params_spec(next@));
                    assert(params_spec(q0) =~= donev + params_spec(next@)) by {
                        assert(done_pre + (pair_of(seg@) + params_spec(next@)) =~= (done_pre
                            + pair_of(seg@)) + params_spec(next@));
                    }
                    assert forall|k: Seq<char>|
                        opt_string_view(#[trigger] assoc_get(out@, k)) == param_get(
                            donev,
                            k,
                        ) by {
                        lemma_param_get_concat(done_pre, pair_of(seg@), k);
                    }
                }
                rest = next;
            },
            None => {
                parse_segment(&mut out, rest);
                proof {
                    donev = donev + pair_of(rest@);
                    assert(params_spec(rest@) == pair_of(rest@));
                    assert(params_spec(q0) =~= donev);
                    assert forall|k: Seq<char>|
                        opt_string_view(#[trigger] assoc_get(out@, k)) == param_get(
                            params_spec(q0),
                            k,
                        ) by {
                        lemma_param_get_concat(done_pre, pair_of(rest@), k);
                    }
                }
                return out;
            },
        }
    }
}

/// Fold one `key=value` segment into the parameter table.
fn parse_segment(out: &mut Vec<(String, String)>, seg: &str)
    requires
        assoc_wf(old(out)@),
    ensures
        assoc_wf(final(out)@),
        forall|k: Seq<char>|
            opt_string_view(#[trigger] assoc_get(final(out)@, k)) == (match param_get(
                pair_of(seg@),
                k,
            ) {
                Some(v) => Some(v),
                None => opt_string_view(assoc_get(old(out)@, k)),
            }),
{
    match str_find_char(seg, '=') {
        Some(e) => {
            let slen = seg.unicode_len();
            let key = seg.substring_char(0, e);
            let raw = seg.substring_char(e + 1, slen);
            proof {
                assert(key@ =~= seg@.subrange(0, e as int));
                assert(raw@ =~= seg@.subrange(e + 1, seg@.len() as int));
            }
            match url_decode(raw) {
                Some(v) => {
                    let ghost p = pair_of(seg@);
                    proof {
                        assert(p =~= seq![(key@, v@)]);
                        assert(p.last() == (key@, v@));
                        assert(p.drop_last() =~= Seq::<(Seq<char>, Seq<char>)>::empty());
                    }
                    let ghost out_pre = out@;
                    assoc_set(out, key, v);
                    proof {
                        assert forall|k: Seq<char>|
                            opt_string_view(#[trigger] assoc_get(out@, k)) == (match param_get(
                                p,
                                k,
                            ) {
                                Some(v2) => Some(v2),
                                None => opt_string_view(assoc_get(out_pre, k)),
                            }) by {
                            if k == key@ {
                                assert(param_get(p, k) == Some(v@));
                                assert(assoc_get(out@, k) == Some(v));
                            } else {
                                assert(param_get(p, k) == param_get(p.drop_last(), k));
                                assert(assoc_get(out@, k) == assoc_get(out_pre, k));
                            }
                        }
                    }
                },
                None => {
                    assert(pair_of(seg@) =~= Seq::<(Seq<char>, Seq<char>)>::empty());
                },
            }
        },
        None => {
            assert(pair_of(seg@) =~= Seq::<(Seq<char>, Seq<char>)>::empty());
        },
    }
}


/// Routing of `vibetunnel://` URLs.
pub struct URLSchemeHandler;

impl URLSchemeHandler {
    /// Parse a `vibetunnel://` URL into an action: the path picks the
    /// action, the query supplies its parameters. A URL without the scheme
    /// prefix, a session URL without an `id` parameter, and an unknown path
    /// are each rejected with a descriptive message.
    pub fn parse_url(url: &str) -> (r: Result<URLSchemeAction, String>)
        ensures
            ({
                let u = url@;
                let prefix = "vibetunnel://"@;
                if !has_prefix(u, prefix) {
                    r matches Err(e) && e@ == "Invalid URL scheme: must start with vibetunnel://"@
                } else {
                    let rest = u.subrange(prefix.len() as int, u.len() as int);
                    let path = path_of(rest);
                    let ps = params_spec(query_of(rest));
                    if path == "session"@ || path == "sessions"@ {
                        match param_get(ps, "id"@) {
                            Some(v) => r matches Ok(a) && a matches URLSchemeAction::OpenSession {
                                session_id,
                            } && session_id@ == v,
                            None => r matches Err(e) && e@ == "Missing session ID parameter"@,
                        }
                    } else if path == "create"@ || path == "new"@ {
                        r matches Ok(a) && a matches URLSchemeAction::CreateSession {
                            name,
                            command,
                        } && opt_string_view(name) == param_get(ps, "name"@) && opt_string_view(
                            command,
                        ) == param_get(ps, "command"@)
                    } else if path == "settings"@ || path == "preferences"@ {
                        r matches Ok(a) && a matches URLSchemeAction::OpenSettings { tab }
                            && opt_string_view(tab) == param_get(ps, "tab"@)
                    } else if path == "welcome"@ || path.len() == 0 {
                        r matches Ok(a) && a is ShowWelcome
                    } else {
                        r matches Err(e) && e@ == "Unknown URL path: "@ + path
                    }
                }
            }),
    {
        proof {
            reveal_strlit("vibetunnel://");
        }
        if !str_starts_with(url, "vibetunnel://") {
            return Err(String::from_str("Invalid URL scheme: must start with vibetunnel://"));
        }
        let len = url.unicode_len();
        let rest = url.substring_char(13, len);
        proof {
            assert(rest@ =~= url@.subrange("vibetunnel://"@.len() as int, url@.len() as int));
        }
        let (path, query): (&str, &str) = match str_find_char(rest, '?') {
            Some(k) => {
                let rlen = rest.unicode_len();
                let p = rest.substring_char(0, k);
                let tail = rest.substring_char(k + 1, rlen);
                proof {
                    assert(p@ =~= rest@.subrange(0, k as int));
                    assert(tail@ =~= rest@.subrange(k + 1, rest@.len() as int));
                }
                let q = match str_find_char(tail, '?') {
                    Some(k2) => {
                        let qq = tail.substring_char(0, k2);
                        proof {
                            assert(qq@ =~= tail@.subrange(0, k2 as int));
                        }
                        qq
                    },
                    None => tail,
                };
                (p, q)
            },
            None => {
                proof {
                    reveal_strlit("");
                    assert("".view() =~= Seq::<char>::empty());
                }
                (rest, "")
            },
        };
        proof {
            assert(path@ == path_of(rest@));
            assert(query@ == query_of(rest@));
        }
        let params = parse_query(query);
        if str_eq(path, "session") || str_eq(path, "sessions") {
            match assoc_find_index(&params, "id") {
                Some(i) => Ok(
                    URLSchemeAction::OpenSession { session_id: params[i].1.clone() },
                ),
                None => Err(String::from_str("Missing session ID parameter")),
            }
        } else if str_eq(path, "create") || str_eq(path, "new") {
            let name = match assoc_find_index(&params, "name") {
                Some(i) => Some(params[i].1.clone()),
                None => None,
            };
            let command = match assoc_find_index(&params, "command") {
                Some(i) => Some(params[i].1.clone()),
                None => None,
            };
            Ok(URLSchemeAction::CreateSession { name, command })
        } else if str_eq(path, "settings") || str_eq(path, "preferences") {
            let tab = match assoc_find_index(&params, "tab") {
                Some(i) => Some(params[i].1.clone()),
                None => None,
            };
            Ok(URLSchemeAction::OpenSettings { tab })
        } else if str_eq(path, "welcome") || path.unicode_len() == 0 {
            Ok(URLSchemeAction::ShowWelcome)
        } else {
            let mut msg = String::from_str("Unknown URL path: ");
            msg.append(path);
            Err(msg)
        }
    }
}

} // verus!
