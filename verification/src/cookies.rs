//! Cookies: the `Set-Cookie` text of a cookie and the parsing of a `Cookie`
//! header.
use vstd::prelude::*;

use crate::string_map::StringMap;
use crate::text::{
    chars_of, decimal, is_space, lemma_split_without_sep, lemma_trim_of_clean, lemma_trimmed_ends,
    push_decimal, push_str, split_on, string_of, string_of_range, trim, trim_bounds,
};

verus! {

/// A cookie with its attributes.
#[derive(Debug, Clone)]
pub struct Cookie {
    pub name: String,
    pub value: String,
    pub expires: Option<String>,
    pub max_age: Option<u64>,
    pub domain: Option<String>,
    pub path: Option<String>,
    pub secure: bool,
    pub http_only: bool,
    pub same_site: Option<String>,
}

/// `label` followed by the text of `o`, or nothing when `o` is `None`.
pub open spec fn text_attr(label: Seq<char>, o: Option<String>) -> Seq<char> {
    match o {
        Some(s) => label + s@,
        None => Seq::empty(),
    }
}

/// The `Set-Cookie` text of a cookie: `name=value` followed by each attribute
/// that is set, in a fixed order.
pub open spec fn cookie_text(c: Cookie) -> Seq<char> {
    c.name@ + "="@ + c.value@ + text_attr("; Expires="@, c.expires) + match c.max_age {
        Some(n) => "; Max-Age="@ + decimal(n as nat),
        None => Seq::empty(),
    } + text_attr("; Domain="@, c.domain) + text_attr("; Path="@, c.path) + (if c.secure {
        "; Secure"@
    } else {
        Seq::empty()
    }) + (if c.http_only {
        "; HttpOnly"@
    } else {
        Seq::empty()
    }) + text_attr("; SameSite="@, c.same_site)
}

fn push_text_attr(out: &mut String, label: &str, o: &Option<String>)
    ensures
        final(out)@ == old(out)@ + text_attr(label@, *o),
{
    match o {
        Some(s) => {
            push_str(out, label);
            push_str(out, s.as_str());
            assert(final(out)@ =~= old(out)@ + text_attr(label@, *o));
        },
        None => {
            assert(final(out)@ =~= old(out)@ + text_attr(label@, *o));
        },
    }
}

impl Cookie {
    /// A cookie `name=value` with no attribute.
    pub fn new(name: &str, value: &str) -> (c: Self)
        ensures
            c.name@ == name@,
            c.value@ == value@,
            c.expires is None,
            c.max_age is None,
            c.domain is None,
            c.path is None,
            !c.secure,
            !c.http_only,
            c.same_site is None,
    {
        Cookie {
            name: string_of(name),
            value: string_of(value),
            expires: None,
            max_age: None,
            domain: None,
            path: None,
            secure: false,
            http_only: false,
            same_site: None,
        }
    }

    /// Sets the expiry date.
    pub fn expires(self, expires: &str) -> (c: Self)
        ensures
            c.expires matches Some(e) && e@ == expires@,
            c == (Cookie { expires: c.expires, ..self }),
    {
        let mut c = self;
        c.expires = Some(string_of(expires));
        c
    }

    /// Sets the maximum age in seconds.
    pub fn max_age(self, seconds: u64) -> (c: Self)
        ensures
            c == (Cookie { max_age: Some(seconds), ..self }),
    {
        let mut c = self;
        c.max_age = Some(seconds);
        c
    }

    /// Sets the domain.
    pub fn domain(self, domain: &str) -> (c: Self)
        ensures
            c.domain matches Some(d) && d@ == domain@,
            c == (Cookie { domain: c.domain, ..self }),
    {
        let mut c = self;
        c.domain = Some(string_of(domain));
        c
    }

    /// Sets the path.
    pub fn path(self, path: &str) -> (c: Self)
        ensures
            c.path matches Some(p) && p@ == path@,
            c == (Cookie { path: c.path, ..self }),
    {
        let mut c = self;
        c.path = Some(string_of(path));
        c
    }

    /// Sends the cookie over secure connections only.
    pub fn secure(self) -> (c: Self)
        ensures
            c == (Cookie { secure: true, ..self }),
    {
        let mut c = self;
        c.secure = true;
        c
    }

    /// Hides the cookie from scripts.
    pub fn http_only(self) -> (c: Self)
        ensures
            c == (Cookie { http_only: true, ..self }),
    {
        let mut c = self;
        c.http_only = true;
        c
    }

    /// The `Set-Cookie` header value.
    pub fn to_header(&self) -> (r: String)
        ensures
            r@ == cookie_text(*self),
    {
        let mut out = String::new();
        push_str(&mut out, self.name.as_str());
        push_str(&mut out, "=");
        push_str(&mut out, self.value.as_str());
        push_text_attr(&mut out, "; Expires=", &self.expires);
        let ghost before_age = out@;
        match self.max_age {
            Some(n) => {
                push_str(&mut out, "; Max-Age=");
                push_decimal(&mut out, n as u128);
            },
            None => {},
        }
        let ghost after_age = out@;
        assert(after_age =~= before_age + match self.max_age {
            Some(n) => "; Max-Age="@ + decimal(n as nat),
            None => Seq::<char>::empty(),
        });
        push_text_attr(&mut out, "; Domain=", &self.domain);
        push_text_attr(&mut out, "; Path=", &self.path);
        let ghost before_flags = out@;
        if self.secure {
            push_str(&mut out, "; Secure");
        }
        let ghost mid_flags = out@;
        assert(mid_flags =~= before_flags + (if self.secure {
            "; Secure"@
        } else {
            Seq::<char>::empty()
        }));
        if self.http_only {
            push_str(&mut out, "; HttpOnly");
        }
        assert(out@ =~= mid_flags + (if self.http_only {
            "; HttpOnly"@
        } else {
            Seq::<char>::empty()
        }));
        push_text_attr(&mut out, "; SameSite=", &self.same_site);
        assert(out@ =~= cookie_text(*self));
        out
    }
}

/// `pos` is the first position of `c` in `s`.
pub open spec fn is_first_index(s: Seq<char>, c: char, pos: int) -> bool {
    0 <= pos < s.len() && s[pos] == c && forall|j: int| 0 <= j < pos ==> s[j] != c
}

/// The name and value of one `;`-separated part of a `Cookie` header: the
/// part trimmed, split at its first `=`, each side trimmed. A part without
/// `=` gives nothing.
pub open spec fn cookie_pair(part: Seq<char>) -> Option<(Seq<char>, Seq<char>)> {
    let p = trim(part);
    if exists|pos: int| is_first_index(p, '=', pos) {
        let pos = choose|pos: int| is_first_index(p, '=', pos);
        Some((trim(p.take(pos)), trim(p.skip(pos + 1))))
    } else {
        None
    }
}

/// The cookies named by a sequence of parts; a later part overrides an
/// earlier one of the same name.
pub open spec fn cookies_of_parts(parts: Seq<Seq<char>>) -> Map<Seq<char>, Seq<char>>
    decreases parts.len(),
{
    if parts.len() == 0 {
        Map::empty()
    } else {
        let m = cookies_of_parts(parts.drop_last());
        match cookie_pair(parts.last()) {
            Some(nv) => m.insert(nv.0, nv.1),
            None => m,
        }
    }
}

/// The cookies of a `Cookie` header.
pub open spec fn cookies_of_header(header: Seq<char>) -> Map<Seq<char>, Seq<char>> {
    cookies_of_parts(split_on(header, ';'))
}

/// A map of strings, values taken by their view.
pub open spec fn text_map(m: StringMap<String>) -> Map<Seq<char>, Seq<char>> {
    m@.map_values(|v: String| v@)
}

proof fn lemma_first_index_unique(s: Seq<char>, c: char, a: int, b: int)
    requires
        is_first_index(s, c, a),
        is_first_index(s, c, b),
    ensures
        a == b,
{
    if a < b {
        assert(s[a] == c);
    } else if b < a {
        assert(s[b] == c);
    }
}

/// Adds the cookie of the part `v[lo..hi]`, if it has one.
fn add_part(m: &mut StringMap<String>, v: &Vec<char>, lo: usize, hi: usize)
    requires
        old(m).wf(),
        lo <= hi <= v@.len(),
    ensures
        final(m).wf(),
        text_map(*final(m)) == match cookie_pair(v@.subrange(lo as int, hi as int)) {
            Some(nv) => text_map(*old(m)).insert(nv.0, nv.1),
            None => text_map(*old(m)),
        },
{
    let ghost part = v@.subrange(lo as int, hi as int);
    let (a, b) = trim_bounds(v, lo, hi);
    let ghost p = v@.subrange(a as int, b as int);
    assert(p == trim(part));
    let mut pos: usize = a;
    while pos < b && v[pos] != '='
        invariant
            a <= pos <= b <= v@.len(),
            forall|j: int| a <= j < pos ==> v@[j] != '=',
        decreases b - pos,
    {
        pos = pos + 1;
    }
    if pos == b {
        proof {
            assert forall|q: int| !is_first_index(p, '=', q) by {
                if 0 <= q < p.len() {
                    assert(p[q] == v@[a + q]);
                }
            }
        }
        return;
    }
    proof {
        let rel = (pos - a) as int;
        assert(is_first_index(p, '=', rel)) by {
            assert forall|j: int| 0 <= j < rel implies p[j] != '=' by {
                assert(p[j] == v@[a + j]);
            }
        }
        let q = choose|q: int| is_first_index(p, '=', q);
        lemma_first_index_unique(p, '=', q, rel);
        assert(p.take(rel) =~= v@.subrange(a as int, pos as int));
        assert(p.skip(rel + 1) =~= v@.subrange(pos + 1, b as int));
    }
    let (na, nb) = trim_bounds(v, a, pos);
    let (va, vb) = trim_bounds(v, pos + 1, b);
    let name = string_of_range(v, na, nb);
    let value = string_of_range(v, va, vb);
    let ghost nv = (name@, value@);
    m.insert(name, value);
    proof {
        assert(text_map(*final(m)) =~= text_map(*old(m)).insert(nv.0, nv.1));
    }
}

/// The cookies of a `Cookie` header: each `;`-separated part with an `=`
/// gives a trimmed name and a trimmed value; a later part overrides an
/// earlier one of the same name.
pub fn parse_cookies(header: &str) -> (r: StringMap<String>)
    ensures
        r.wf(),
        text_map(r) == cookies_of_header(header@),
{
    let v = chars_of(header);
    let mut m: StringMap<String> = StringMap::new();
    let mut start: usize = 0;
    let mut i: usize = 0;
    proof {
        assert(v@.take(0) =~= Seq::<char>::empty());
        assert(text_map(m) =~= Map::<Seq<char>, Seq<char>>::empty());
    }
    while i < v.len()
        invariant
            m.wf(),
            0 <= start <= i <= v@.len(),
            v@ == header@,
            split_on(v@.take(i as int), ';').len() >= 1,
            split_on(v@.take(i as int), ';').last() == v@.subrange(start as int, i as int),
            text_map(m) == cookies_of_parts(split_on(v@.take(i as int), ';').drop_last()),
        decreases v@.len() - i,
    {
        let ghost pre = split_on(v@.take(i as int), ';');
        proof {
            assert(v@.take(i + 1).drop_last() =~= v@.take(i as int));
            assert(v@.take(i + 1).last() == v@[i as int]);
        }
        if v[i] == ';' {
            add_part(&mut m, &v, start, i);
            proof {
                let post = split_on(v@.take(i + 1), ';');
                assert(post == pre.push(Seq::<char>::empty()));
                assert(post.drop_last() =~= pre);
                assert(pre.drop_last().push(pre.last()) =~= pre);
                assert(v@.subrange(i + 1, i + 1) =~= Seq::<char>::empty());
            }
            start = i + 1;
        } else {
            proof {
                let post = split_on(v@.take(i + 1), ';');
                assert(post.drop_last() =~= pre.drop_last());
                assert(v@.subrange(start as int, i + 1) =~= v@.subrange(start as int, i as int).push(v@[i as int]));
            }
        }
        i = i + 1;
    }
    let ghost pre = split_on(v@.take(i as int), ';');
    add_part(&mut m, &v, start, i);
    proof {
        assert(v@.take(i as int) =~= v@);
        assert(pre.drop_last().push(pre.last()) =~= pre);
    }
    m
}

/// The header text of a cookie starts with `name=value`, and each flag is
/// written on its own: with no SameSite attribute, setting `Secure` appends
/// "; Secure", setting `HttpOnly` appends "; HttpOnly" (after "; Secure"
/// when both are set), whatever the other attributes are.
pub proof fn law_cookie_flags(c: Cookie)
    requires
        c.same_site is None,
    ensures
        ({
            let base = cookie_text(Cookie { secure: false, http_only: false, ..c });
            &&& cookie_text(Cookie { secure: true, http_only: false, ..c }) == base + "; Secure"@
            &&& cookie_text(Cookie { secure: false, http_only: true, ..c }) == base + "; HttpOnly"@
            &&& cookie_text(Cookie { secure: true, http_only: true, ..c }) == base + "; Secure"@ + "; HttpOnly"@
            &&& base.subrange(0, (c.name@.len() + 1 + c.value@.len()) as int) == c.name@ + "="@ + c.value@
        }),
{
    reveal_strlit("=");
    let base = cookie_text(Cookie { secure: false, http_only: false, ..c });
    assert(cookie_text(Cookie { secure: true, http_only: false, ..c }) =~= base + "; Secure"@);
    assert(cookie_text(Cookie { secure: false, http_only: true, ..c }) =~= base + "; HttpOnly"@);
    assert(cookie_text(Cookie { secure: true, http_only: true, ..c }) =~= base + "; Secure"@ + "; HttpOnly"@);
    let head = c.name@ + "="@ + c.value@;
    assert(base =~= head + (base.subrange(head.len() as int, base.len() as int)));
    assert(base.subrange(0, head.len() as int) =~= head);
}

/// A SameSite attribute is written last, as "; SameSite=" and its value.
pub proof fn law_cookie_same_site(c: Cookie, same_site: String)
    ensures
        cookie_text(Cookie { same_site: Some(same_site), ..c }) == cookie_text(Cookie { same_site: None, ..c })
            + "; SameSite="@ + same_site@,
{
    assert(cookie_text(Cookie { same_site: Some(same_site), ..c }) =~= cookie_text(Cookie { same_site: None, ..c })
        + "; SameSite="@ + same_site@);
}

/// With every attribute set, the header text lists them in this order:
/// `name=value; Expires=…; Max-Age=…; Domain=…; Path=…; Secure; HttpOnly;
/// SameSite=…`, the maximum age written in decimal.
pub proof fn law_cookie_full_layout(
    name: String,
    value: String,
    expires: String,
    max_age: u64,
    domain: String,
    path: String,
    same_site: String,
)
    ensures
        cookie_text(
            Cookie {
                name,
                value,
                expires: Some(expires),
                max_age: Some(max_age),
                domain: Some(domain),
                path: Some(path),
                secure: true,
                http_only: true,
                same_site: Some(same_site),
            },
        ) == name@ + "="@ + value@ + "; Expires="@ + expires@ + "; Max-Age="@ + decimal(max_age as nat)
            + "; Domain="@ + domain@ + "; Path="@ + path@ + "; Secure"@ + "; HttpOnly"@ + "; SameSite="@
            + same_site@,
{
    let c = Cookie {
        name,
        value,
        expires: Some(expires),
        max_age: Some(max_age),
        domain: Some(domain),
        path: Some(path),
        secure: true,
        http_only: true,
        same_site: Some(same_site),
    };
    assert(cookie_text(c) =~= name@ + "="@ + value@ + "; Expires="@ + expires@ + "; Max-Age="@ + decimal(
        max_age as nat,
    ) + "; Domain="@ + domain@ + "; Path="@ + path@ + "; Secure"@ + "; HttpOnly"@ + "; SameSite="@ + same_site@);
}

/// A bare cookie reads back from its own header text: parsing the text of
/// `name=value` gives exactly that one cookie, provided the name holds neither
/// `;` nor `=`, the value holds no `;`, and neither starts or ends with white
/// space.
pub proof fn law_cookie_round_trip(c: Cookie)
    requires
        c.expires is None,
        c.max_age is None,
        c.domain is None,
        c.path is None,
        !c.secure,
        !c.http_only,
        c.same_site is None,
        !c.name@.contains(';'),
        !c.name@.contains('='),
        !c.value@.contains(';'),
        trim(c.name@) == c.name@,
        trim(c.value@) == c.value@,
    ensures
        cookies_of_header(cookie_text(c)) == Map::<Seq<char>, Seq<char>>::empty().insert(c.name@, c.value@),
{
    let n = c.name@;
    let v = c.value@;
    let t = n + "="@ + v;
    reveal_strlit("=");
    assert(cookie_text(c) =~= t);
    assert(t.len() == n.len() + 1 + v.len());
    assert(t[n.len() as int] == '=');
    assert(!t.contains(';')) by {
        if t.contains(';') {
            let i = choose|i: int| 0 <= i < t.len() && t[i] == ';';
            if i < n.len() {
                assert(n[i] == ';');
            } else if i > n.len() {
                assert(v[i - n.len() - 1] == ';');
            }
        }
    }
    lemma_split_without_sep(t, ';');
    assert(split_on(t, ';').drop_last() =~= Seq::<Seq<char>>::empty());
    assert(split_on(t, ';').last() == t);
    // The whole text is already trimmed.
    if n.len() > 0 {
        lemma_trimmed_ends(n);
        assert(t[0] == n[0]);
    } else {
        assert(t[0] == '=');
    }
    if v.len() > 0 {
        lemma_trimmed_ends(v);
        assert(t.last() == v.last());
    } else {
        assert(t.last() == '=');
    }
    assert(!is_space('='));
    lemma_trim_of_clean(t);
    // Its first `=` follows the name.
    assert(is_first_index(t, '=', n.len() as int)) by {
        assert forall|j: int| 0 <= j < n.len() implies t[j] != '=' by {
            assert(t[j] == n[j]);
            if n[j] == '=' {
                assert(n.contains('='));
            }
        }
    }
    let q = choose|q: int| is_first_index(t, '=', q);
    lemma_first_index_unique(t, '=', q, n.len() as int);
    assert(t.take(n.len() as int) =~= n);
    assert(t.skip(n.len() as int + 1) =~= v);
    assert(cookie_pair(t) == Some((n, v)));
    let parts = split_on(t, ';');
    assert(cookies_of_parts(parts.drop_last()) == Map::<Seq<char>, Seq<char>>::empty());
    assert(cookies_of_parts(parts) == cookies_of_parts(parts.drop_last()).insert(n, v));
}

} // verus!
