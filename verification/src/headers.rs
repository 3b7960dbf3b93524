//! The header bag handed in by the credentials source: parsing the
//! header text into the cookie and user-agent values the session needs.

use vstd::prelude::*;

use crate::types::YoutubeMusicError;
use crate::utils::find_str;
use crate::utils::spec_find;

verus! {

/// ASCII lower-casing of one character.
pub open spec fn lower_char(c: char) -> char {
    if 'A' <= c && c <= 'Z' {
        ((c as u8) + 32) as char
    } else {
        c
    }
}

/// ASCII lower-casing of a character sequence.
pub open spec fn ascii_lower(s: Seq<char>) -> Seq<char> {
    s.map_values(|c: char| lower_char(c))
}

/// Whether `a` lower-cases to exactly `key`.
fn eq_ascii_lower(a: &str, key: &str) -> (r: bool)
    ensures
        r == (ascii_lower(a@) == key@),
{
    let n = a.unicode_len();
    let k = key.unicode_len();
    if n != k {
        assert(ascii_lower(a@).len() == a@.len());
        return false;
    }
    for i in 0..n
        invariant
            n == a@.len(),
            n == key@.len(),
            forall|t: int| 0 <= t < i ==> ascii_lower(a@)[t] == key@[t],
    {
        let c = a.get_char(i);
        let lc = if 'A' <= c && c <= 'Z' {
            ((c as u8) + 32) as char
        } else {
            c
        };
        assert(ascii_lower(a@)[i as int] == lower_char(a@[i as int]));
        if lc != key.get_char(i) {
            return false;
        }
    }
    assert(ascii_lower(a@) =~= key@);
    true
}

/// A line without its trailing carriage return, if it carries one.
pub open spec fn strip_cr_spec(l: Seq<char>) -> Seq<char> {
    if l.len() > 0 && l.last() == '\r' {
        l.drop_last()
    } else {
        l
    }
}

fn strip_cr(l: &str) -> (r: String)
    ensures
        r@ == strip_cr_spec(l@),
{
    let n = l.unicode_len();
    if n > 0 && l.get_char(n - 1) == '\r' {
        let r = l.substring_char(0, n - 1).to_owned();
        assert(r@ =~= strip_cr_spec(l@));
        r
    } else {
        l.to_owned()
    }
}

/// The lines of a text: split at every newline, each line without a
/// trailing carriage return; an empty text has no lines.
pub open spec fn split_lines(s: Seq<char>) -> Seq<Seq<char>>
    decreases s.len(),
{
    if s.len() == 0 {
        Seq::empty()
    } else {
        match spec_find(s, seq!['\n']) {
            None => seq![strip_cr_spec(s)],
            Some(i) => if 0 <= i < s.len() {
                seq![strip_cr_spec(s.take(i))] + split_lines(s.skip(i + 1))
            } else {
                seq![strip_cr_spec(s)]
            },
        }
    }
}

fn push_lines(s: &str, out: &mut Vec<String>)
    ensures
        final(out).deep_view() == old(out).deep_view() + split_lines(s@),
    decreases s@.len(),
{
    let ghost base = out.deep_view();
    let n = s.unicode_len();
    if n == 0 {
        assert(final(out).deep_view() =~= base + split_lines(s@));
        return ;
    }
    proof {
        reveal_strlit("\n");
        assert("\n"@ =~= seq!['\n']);
    }
    match find_str(s, "\n") {
        None => {
            out.push(strip_cr(s));
            assert(final(out).deep_view() =~= base + split_lines(s@));
        },
        Some(i) => {
            let head = s.substring_char(0, i);
            assert(head@ =~= s@.take(i as int));
            out.push(strip_cr(head));
            let ghost mid = out.deep_view();
            assert(mid =~= base + seq![strip_cr_spec(s@.take(i as int))]);
            let rest = s.substring_char(i + 1, n);
            assert(rest@ =~= s@.skip(i + 1));
            push_lines(rest, out);
            assert(final(out).deep_view() =~= base + split_lines(s@));
        },
    }
}

/// One header line split at its first `": "`, if it has one.
pub open spec fn split_once_spec(l: Seq<char>) -> Option<(Seq<char>, Seq<char>)> {
    match spec_find(l, ": "@) {
        None => None,
        Some(i) => Some((l.take(i), l.skip(i + 2))),
    }
}

fn split_once(l: &str) -> (r: Option<(String, String)>)
    ensures
        match r {
            Some(kv) => split_once_spec(l@) matches Some(p) && p.0 == kv.0@ && p.1 == kv.1@,
            None => split_once_spec(l@) is None,
        },
{
    let n = l.unicode_len();
    match find_str(l, ": ") {
        None => None,
        Some(i) => {
            proof {
                reveal_strlit(": ");
            }
            let key = l.substring_char(0, i).to_owned();
            let value = l.substring_char(i + 2, n).to_owned();
            assert(key@ =~= l@.take(i as int));
            assert(value@ =~= l@.skip(i + 2));
            Some((key, value))
        },
    }
}

/// The value of the last line whose key lower-cases to `key`.
pub open spec fn last_header(lines: Seq<Seq<char>>, key: Seq<char>) -> Option<Seq<char>>
    decreases lines.len(),
{
    if lines.len() == 0 {
        None
    } else {
        match split_once_spec(lines.last()) {
            Some(kv) => if ascii_lower(kv.0) == key {
                Some(kv.1)
            } else {
                last_header(lines.drop_last(), key)
            },
            None => last_header(lines.drop_last(), key),
        }
    }
}

/// The two headers the session needs.
#[derive(Debug)]
pub struct HeaderBag {
    pub cookie: String,
    pub user_agent: String,
}

/// The view of an optional string.
pub open spec fn opt_view(o: Option<String>) -> Option<Seq<char>> {
    match o {
        Some(s) => Some(s@),
        None => None,
    }
}

/// Reads the header bag out of a `headers.txt` text: one `Key: Value`
/// pair per line, keys matched without regard to ASCII case, the last
/// occurrence winning; lines without `": "` are skipped. A text without
/// a cookie line is rejected; a missing user-agent falls back to a
/// desktop default.
pub fn parse_header_file(text: &String) -> (r: Result<HeaderBag, YoutubeMusicError>)
    ensures
        ({
            let lines = split_lines(text@);
            match r {
                Ok(bag) => {
                    &&& last_header(lines, "cookie"@) == Some(bag.cookie@)
                    &&& match last_header(lines, "user-agent"@) {
                        Some(u) => bag.user_agent@ == u,
                        None => bag.user_agent@
                            == "Mozilla/5.0 (X11; Linux x86_64; rv:108.0) Gecko/20100101 Firefox/108.0"@,
                    }
                },
                Err(YoutubeMusicError::InvalidHeaders) => last_header(lines, "cookie"@) is None,
                _ => false,
            }
        }),
{
    let mut lines: Vec<String> = Vec::new();
    assert(lines.deep_view() =~= Seq::<Seq<char>>::empty());
    push_lines(text.as_str(), &mut lines);
    assert(lines.deep_view() =~= split_lines(text@));
    let ghost dv = lines.deep_view();
    let mut cookie: Option<String> = None;
    let mut user_agent: Option<String> = None;
    proof {
        assert(dv.take(0) =~= Seq::<Seq<char>>::empty());
    }
    let n = lines.len();
    for i in 0..n
        invariant
            n == lines@.len(),
            dv == lines.deep_view(),
            dv == split_lines(text@),
            opt_view(cookie) == last_header(dv.take(i as int), "cookie"@),
            opt_view(user_agent) == last_header(dv.take(i as int), "user-agent"@),
    {
        proof {
            assert(dv.take(i + 1).last() == dv[i as int]);
            assert(dv.take(i + 1).drop_last() =~= dv.take(i as int));
            reveal_strlit("cookie");
            reveal_strlit("user-agent");
            assert("cookie"@.len() != "user-agent"@.len());
        }
        match split_once(lines[i].as_str()) {
            Some(kv) => {
                if eq_ascii_lower(kv.0.as_str(), "cookie") {
                    cookie = Some(kv.1);
                } else if eq_ascii_lower(kv.0.as_str(), "user-agent") {
                    user_agent = Some(kv.1);
                }
            },
            None => {},
        }
    }
    proof {
        assert(dv.take(n as int) =~= dv);
    }
    match cookie {
        None => Err(YoutubeMusicError::InvalidHeaders),
        Some(c) => {
            let ua = match user_agent {
                Some(u) => u,
                None => "Mozilla/5.0 (X11; Linux x86_64; rv:108.0) Gecko/20100101 Firefox/108.0".to_owned(),
            };
            Ok(HeaderBag { cookie: c, user_agent: ua })
        },
    }
}

/// An account identifier as read from its sibling file, without one
/// trailing newline (and carriage return before it, if any).
pub open spec fn clean_account_spec(s: Seq<char>) -> Seq<char> {
    if s.len() > 0 && s.last() == '\n' {
        let t = s.drop_last();
        if t.len() > 0 && t.last() == '\r' {
            t.drop_last()
        } else {
            t
        }
    } else {
        s
    }
}

/// Strips one trailing newline, and a carriage return before it.
pub fn clean_account_id(s: &String) -> (r: String)
    ensures
        r@ == clean_account_spec(s@),
{
    let st = s.as_str();
    let n = st.unicode_len();
    if n > 0 && st.get_char(n - 1) == '\n' {
        if n > 1 && st.get_char(n - 2) == '\r' {
            let r = st.substring_char(0, n - 2).to_owned();
            assert(r@ =~= clean_account_spec(s@));
            r
        } else {
            let r = st.substring_char(0, n - 1).to_owned();
            assert(r@ =~= clean_account_spec(s@));
            r
        }
    } else {
        s.clone()
    }
}

} // verus!
