//! Assembling the cookie header value out of browser cookies handed in
//! as plain records: only the service's domains are kept, expired
//! cookies are dropped, the first cookie of each name wins, and the
//! survivors are joined as `name=value` pairs.

use vstd::prelude::*;

use crate::json::str_eq;

verus! {

/// One browser cookie as plain values; `expires` is a Unix timestamp in
/// seconds, absent for a session cookie.
#[derive(Debug, Clone)]
pub struct CookieRecord {
    pub name: String,
    pub value: String,
    pub domain: String,
    pub expires: Option<u64>,
}

/// The mathematical value of a [`CookieRecord`].
pub struct CookieView {
    pub name: Seq<char>,
    pub value: Seq<char>,
    pub domain: Seq<char>,
    pub expires: Option<u64>,
}

impl View for CookieRecord {
    type V = CookieView;

    open spec fn view(&self) -> CookieView {
        CookieView {
            name: self.name@,
            value: self.value@,
            domain: self.domain@,
            expires: self.expires,
        }
    }
}

impl DeepView for CookieRecord {
    type V = CookieView;

    open spec fn deep_view(&self) -> CookieView {
        self.view()
    }
}

/// Whether the cookie belongs to the service and has not expired.
pub open spec fn cookie_admissible(c: CookieView, now: u64) -> bool {
    &&& (c.domain == ".youtube.com"@ || c.domain == "music.youtube.com"@)
    &&& match c.expires {
        Some(e) => e >= now,
        None => true,
    }
}

/// Whether a pair with this name was already picked.
pub open spec fn has_name(ps: Seq<(Seq<char>, Seq<char>)>, name: Seq<char>) -> bool {
    exists|j: int| 0 <= j < ps.len() && ps[j].0 == name
}

/// The name/value pairs that survive the filter, in order of first
/// appearance.
pub open spec fn select_cookies(
    cs: Seq<CookieView>,
    now: u64,
    acc: Seq<(Seq<char>, Seq<char>)>,
) -> Seq<(Seq<char>, Seq<char>)>
    decreases cs.len(),
{
    if cs.len() == 0 {
        acc
    } else {
        let c = cs[0];
        let acc2 = if cookie_admissible(c, now) && !has_name(acc, c.name) {
            acc.push((c.name, c.value))
        } else {
            acc
        };
        select_cookies(cs.drop_first(), now, acc2)
    }
}

/// The pairs joined as `name=value`, separated by `"; "`.
pub open spec fn join_cookies(ps: Seq<(Seq<char>, Seq<char>)>) -> Seq<char>
    decreases ps.len(),
{
    if ps.len() == 0 {
        Seq::empty()
    } else if ps.len() == 1 {
        ps[0].0 + "="@ + ps[0].1
    } else {
        ps[0].0 + "="@ + ps[0].1 + "; "@ + join_cookies(ps.drop_first())
    }
}

proof fn lemma_join_snoc(ps: Seq<(Seq<char>, Seq<char>)>, x: (Seq<char>, Seq<char>))
    ensures
        join_cookies(ps.push(x)) == if ps.len() == 0 {
            x.0 + "="@ + x.1
        } else {
            join_cookies(ps) + "; "@ + (x.0 + "="@ + x.1)
        },
    decreases ps.len(),
{
    if ps.len() == 0 {
        assert(ps.push(x)[0] == x);
    } else {
        assert(ps.push(x)[0] == ps[0]);
        assert(ps.push(x).drop_first() =~= ps.drop_first().push(x));
        lemma_join_snoc(ps.drop_first(), x);
        if ps.len() == 1 {
            assert(join_cookies(ps.push(x)) =~= join_cookies(ps) + "; "@ + (x.0 + "="@ + x.1));
        } else {
            assert(join_cookies(ps.push(x)) =~= join_cookies(ps) + "; "@ + (x.0 + "="@ + x.1));
        }
    }
}

fn picked_has_name(ps: &Vec<(String, String)>, name: &String) -> (r: bool)
    ensures
        r == has_name(ps.deep_view(), name@),
{
    let n = ps.len();
    for i in 0..n
        invariant
            n == ps@.len(),
            forall|j: int| 0 <= j < i ==> ps.deep_view()[j].0 != name@,
    {
        if str_eq(ps[i].0.as_str(), name.as_str()) {
            assert(ps.deep_view()[i as int].0 == name@);
            return true;
        }
        assert(ps.deep_view()[i as int].0 != name@);
    }
    false
}

/// Builds the cookie header value: service-domain, unexpired cookies,
/// first of each name, joined in order of first appearance.
#[verifier::loop_isolation(false)]
pub fn assemble_cookie_header(cookies: &Vec<CookieRecord>, now: u64) -> (r: String)
    ensures
        r@ == join_cookies(select_cookies(cookies.deep_view(), now, Seq::empty())),
{
    let ghost cdv = cookies.deep_view();
    let mut picked: Vec<(String, String)> = Vec::new();
    assert(cdv.skip(0) =~= cdv);
    assert(picked.deep_view() =~= Seq::<(Seq<char>, Seq<char>)>::empty());
    let n = cookies.len();
    for i in 0..n
        invariant
            select_cookies(cdv.skip(i as int), now, picked.deep_view()) == select_cookies(
                cdv,
                now,
                Seq::empty(),
            ),
    {
        let ghost before = picked.deep_view();
        let c = &cookies[i];
        let admissible = (str_eq(c.domain.as_str(), ".youtube.com") || str_eq(
            c.domain.as_str(),
            "music.youtube.com",
        )) && match c.expires {
            Some(e) => e >= now,
            None => true,
        };
        if admissible && !picked_has_name(&picked, &c.name) {
            picked.push((c.name.clone(), c.value.clone()));
            assert(picked.deep_view() =~= before.push((cdv[i as int].name, cdv[i as int].value)));
        }
        proof {
            assert(cdv.skip(i as int)[0] == cdv[i as int]);
            assert(cdv.skip(i as int).drop_first() =~= cdv.skip(i + 1));
        }
    }
    assert(cdv.skip(n as int) =~= Seq::<CookieView>::empty());
    let ghost ps = picked.deep_view();
    let mut out = String::new();
    assert(ps.take(0) =~= Seq::<(Seq<char>, Seq<char>)>::empty());
    assert(out@ =~= join_cookies(ps.take(0)));
    let m = picked.len();
    for i in 0..m
        invariant
            out@ == join_cookies(ps.take(i as int)),
    {
        if i > 0 {
            out.append("; ");
        }
        out.append(picked[i].0.as_str());
        out.append("=");
        out.append(picked[i].1.as_str());
        proof {
            lemma_join_snoc(ps.take(i as int), ps[i as int]);
            assert(ps.take(i + 1) =~= ps.take(i as int).push(ps[i as int]));
            assert(out@ =~= join_cookies(ps.take(i + 1)));
        }
    }
    assert(ps.take(m as int) =~= ps);
    out
}

} // verus!
