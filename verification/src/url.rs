use vstd::prelude::*;
use vstd::string::StrSliceExecFns;

verus! {

/// Number of characters of `s` before the first occurrence of `a` or `b`;
/// the whole length when neither occurs.
pub open spec fn scan_len(s: Seq<char>, a: char, b: char) -> nat
    decreases s.len(),
{
    if s.len() == 0 {
        0
    } else if s[0] == a || s[0] == b {
        0
    } else {
        (1 + scan_len(s.drop_first(), a, b)) as nat
    }
}

/// `scan_len` points at the first occurrence of `a` or `b`: everything
/// before it is neither, and what it points at (if inside `s`) is one of them.
pub proof fn lemma_scan_len(s: Seq<char>, a: char, b: char)
    ensures
        scan_len(s, a, b) <= s.len(),
        forall|j: int| 0 <= j < scan_len(s, a, b) ==> s[j] != a && s[j] != b,
        scan_len(s, a, b) < s.len() ==> (s[scan_len(s, a, b) as int] == a
            || s[scan_len(s, a, b) as int] == b),
    decreases s.len(),
{
    if s.len() == 0 {
    } else if s[0] == a || s[0] == b {
    } else {
        lemma_scan_len(s.drop_first(), a, b);
        assert forall|j: int| 0 <= j < scan_len(s, a, b) implies s[j] != a && s[j] != b by {
            if j > 0 {
                assert(s.drop_first()[j - 1] == s[j]);
            }
        }
        if scan_len(s, a, b) < s.len() {
            assert(s.drop_first()[scan_len(s.drop_first(), a, b) as int] == s[scan_len(
                s,
                a,
                b,
            ) as int]);
        }
    }
}

/// `scan_len` is the only index with those two properties.
pub proof fn lemma_scan_len_is(s: Seq<char>, a: char, b: char, i: int)
    requires
        0 <= i <= s.len(),
        forall|j: int| 0 <= j < i ==> s[j] != a && s[j] != b,
        i < s.len() ==> (s[i] == a || s[i] == b),
    ensures
        scan_len(s, a, b) == i,
    decreases s.len(),
{
    if s.len() == 0 {
    } else if s[0] == a || s[0] == b {
    } else {
        assert forall|j: int| 0 <= j < i - 1 implies s.drop_first()[j] != a
            && s.drop_first()[j] != b by {
            assert(s.drop_first()[j] == s[j + 1]);
        }
        lemma_scan_len_is(s.drop_first(), a, b, i - 1);
    }
}

/// First index of `a` or `b` in `s`, or the length of `s` when neither occurs.
fn find2(s: &str, a: char, b: char) -> (i: usize)
    ensures
        i == scan_len(s@, a, b),
{
    let len: usize = s.unicode_len();
    let mut i: usize = 0;
    while i < len
        invariant
            i <= len,
            len == s@.len(),
            forall|j: int| 0 <= j < i ==> s@[j] != a && s@[j] != b,
        decreases len - i,
    {
        let c = s.get_char(i);
        if c == a || c == b {
            proof {
                lemma_scan_len_is(s@, a, b, i as int);
            }
            return i;
        }
        i += 1;
    }
    proof {
        lemma_scan_len_is(s@, a, b, len as int);
    }
    len
}

/// Whether `s` begins with the one accepted scheme prefix, `http://`.
pub open spec fn spec_is_http(s: Seq<char>) -> bool {
    s.len() >= 7 && s.subrange(0, 7) == "http://"@
}

/// `s` with the scheme prefix stripped once.
pub open spec fn spec_after_scheme(s: Seq<char>) -> Seq<char>
    recommends
        spec_is_http(s),
{
    s.subrange(7, s.len() as int)
}

/// The host segment: the stripped string up to the first `/` or `?`,
/// port still attached.
pub open spec fn spec_host_segment(s: Seq<char>) -> Seq<char> {
    let a = spec_after_scheme(s);
    a.take(scan_len(a, '/', '?') as int)
}

/// The host: the host segment up to the first `:`.
pub open spec fn spec_host(s: Seq<char>) -> Seq<char> {
    let h = spec_host_segment(s);
    h.take(scan_len(h, ':', ':') as int)
}

/// The port: what follows the first `:` of the host segment, or `80`
/// when the segment has no `:`.
pub open spec fn spec_port(s: Seq<char>) -> Seq<char> {
    let h = spec_host_segment(s);
    let c = scan_len(h, ':', ':');
    if c < h.len() {
        h.subrange(c as int + 1, h.len() as int)
    } else {
        "80"@
    }
}

/// The path: what follows the first `/` of the stripped string, cut at the
/// first `?` after that `/`; empty when the stripped string has no `/`.
pub open spec fn spec_path(s: Seq<char>) -> Seq<char> {
    let a = spec_after_scheme(s);
    let sl = scan_len(a, '/', '/');
    if sl < a.len() {
        let rest = a.subrange(sl as int + 1, a.len() as int);
        rest.take(scan_len(rest, '?', '?') as int)
    } else {
        Seq::empty()
    }
}

/// The searchpart: what follows the first `?` of the raw string; empty
/// when the raw string has no `?`.
pub open spec fn spec_searchpart(s: Seq<char>) -> Seq<char> {
    let q = scan_len(s, '?', '?');
    if q < s.len() {
        s.subrange(q as int + 1, s.len() as int)
    } else {
        Seq::empty()
    }
}

/// The message every rejected raw string is reported with.
pub open spec fn spec_scheme_error() -> Seq<char> {
    "Only HTTP scheme is supported."@
}

/// An absolute `http://` URL: the raw string it was built from, together
/// with the four parts that `parse` derives from that string.
#[derive(Debug, Clone)]
pub struct Url {
    pub url: String,
    pub host: String,
    pub port: String,
    pub path: String,
    pub searchpart: String,
}

impl Url {
    /// A fresh record holding only the raw string; the derived parts are
    /// empty until `parse` fills them.
    pub fn new(url: String) -> (u: Url)
        ensures
            u.url@ == url@,
            u.host@ == Seq::<char>::empty(),
            u.port@ == Seq::<char>::empty(),
            u.path@ == Seq::<char>::empty(),
            u.searchpart@ == Seq::<char>::empty(),
    {
        Url {
            url,
            host: String::new(),
            port: String::new(),
            path: String::new(),
            searchpart: String::new(),
        }
    }

    pub fn host(&self) -> (r: String)
        ensures
            r@ == self.host@,
    {
        self.host.clone()
    }

    pub fn port(&self) -> (r: String)
        ensures
            r@ == self.port@,
    {
        self.port.clone()
    }

    pub fn path(&self) -> (r: String)
        ensures
            r@ == self.path@,
    {
        self.path.clone()
    }

    pub fn searchpart(&self) -> (r: String)
        ensures
            r@ == self.searchpart@,
    {
        self.searchpart.clone()
    }

    /// Derive the four parts from the raw string. Fails, and changes
    /// nothing, unless the raw string starts with `http://`; otherwise
    /// fills every part and returns a copy of the filled record.
    pub fn parse(&mut self) -> (r: Result<Url, String>)
        ensures
            r is Ok <==> spec_is_http(old(self).url@),
            final(self).url@ == old(self).url@,
            spec_is_http(old(self).url@) ==> {
                &&& final(self).host@ == spec_host(old(self).url@)
                &&& final(self).port@ == spec_port(old(self).url@)
                &&& final(self).path@ == spec_path(old(self).url@)
                &&& final(self).searchpart@ == spec_searchpart(old(self).url@)
                &&& (r matches Ok(u) ==> parsed_from(u, old(self).url@))
            },
            !spec_is_http(old(self).url@) ==> {
                &&& *final(self) == *old(self)
                &&& (r matches Err(e) ==> e@ == spec_scheme_error())
            },
    {
        if !self.is_http() {
            return Err("Only HTTP scheme is supported.".to_owned());
        }
        self.host = self.extract_host();
        self.port = self.extract_port();
        self.path = self.extract_path();
        self.searchpart = self.extract_searchpart();

        Ok(Url {
            url: self.url.clone(),
            host: self.host.clone(),
            port: self.port.clone(),
            path: self.path.clone(),
            searchpart: self.searchpart.clone(),
        })
    }

    fn is_http(&self) -> (b: bool)
        ensures
            b == spec_is_http(self.url@),
    {
        let s: &str = self.url.as_str();
        let len: usize = s.unicode_len();
        if len < 7 {
            return false;
        }
        let b = s.get_char(0) == 'h' && s.get_char(1) == 't' && s.get_char(2) == 't'
            && s.get_char(3) == 'p' && s.get_char(4) == ':' && s.get_char(5) == '/'
            && s.get_char(6) == '/';
        proof {
            reveal_strlit("http://");
            if b {
                assert(s@.subrange(0, 7) =~= "http://"@);
            } else {
                if s@.subrange(0, 7) == "http://"@ {
                    assert(s@[0] == s@.subrange(0, 7)[0]);
                    assert(s@[1] == s@.subrange(0, 7)[1]);
                    assert(s@[2] == s@.subrange(0, 7)[2]);
                    assert(s@[3] == s@.subrange(0, 7)[3]);
                    assert(s@[4] == s@.subrange(0, 7)[4]);
                    assert(s@[5] == s@.subrange(0, 7)[5]);
                    assert(s@[6] == s@.subrange(0, 7)[6]);
                    assert(false);
                }
            }
        }
        b
    }

    fn extract_host(&self) -> (h: String)
        requires
            spec_is_http(self.url@),
        ensures
            h@ == spec_host(self.url@),
    {
        let s: &str = self.url.as_str();
        let len: usize = s.unicode_len();
        let after: &str = s.substring_char(7, len);
        let he: usize = find2(after, '/', '?');
        proof {
            lemma_scan_len(after@, '/', '?');
        }
        let hseg: &str = after.substring_char(0, he);
        let colon: usize = find2(hseg, ':', ':');
        proof {
            lemma_scan_len(hseg@, ':', ':');
        }
        let host: &str = hseg.substring_char(0, colon);
        host.to_owned()
    }

    fn extract_port(&self) -> (p: String)
        requires
            spec_is_http(self.url@),
        ensures
            p@ == spec_port(self.url@),
    {
        let s: &str = self.url.as_str();
        let len: usize = s.unicode_len();
        let after: &str = s.substring_char(7, len);
        let he: usize = find2(after, '/', '?');
        proof {
            lemma_scan_len(after@, '/', '?');
        }
        let hseg: &str = after.substring_char(0, he);
        let colon: usize = find2(hseg, ':', ':');
        proof {
            lemma_scan_len(hseg@, ':', ':');
        }
        let hlen: usize = hseg.unicode_len();
        if colon < hlen {
            hseg.substring_char(colon + 1, hlen).to_owned()
        } else {
            "80".to_owned()
        }
    }

    fn extract_path(&self) -> (p: String)
        requires
            spec_is_http(self.url@),
        ensures
            p@ == spec_path(self.url@),
    {
        let s: &str = self.url.as_str();
        let len: usize = s.unicode_len();
        let after: &str = s.substring_char(7, len);
        let alen: usize = after.unicode_len();
        let sl: usize = find2(after, '/', '/');
        proof {
            lemma_scan_len(after@, '/', '/');
        }
        if sl < alen {
            let rest: &str = after.substring_char(sl + 1, alen);
            let q: usize = find2(rest, '?', '?');
            proof {
                lemma_scan_len(rest@, '?', '?');
            }
            rest.substring_char(0, q).to_owned()
        } else {
            String::new()
        }
    }

    fn extract_searchpart(&self) -> (p: String)
        ensures
            p@ == spec_searchpart(self.url@),
    {
        let s: &str = self.url.as_str();
        let len: usize = s.unicode_len();
        let q: usize = find2(s, '?', '?');
        proof {
            lemma_scan_len(s@, '?', '?');
        }
        if q < len {
            s.substring_char(q + 1, len).to_owned()
        } else {
            String::new()
        }
    }
}

impl PartialEq for Url {
    fn eq(&self, other: &Url) -> (r: bool) {
        self.url == other.url && self.host == other.host && self.port == other.port && self.path
            == other.path && self.searchpart == other.searchpart
    }
}

impl vstd::std_specs::cmp::PartialEqSpecImpl for Url {
    open spec fn obeys_eq_spec() -> bool {
        true
    }

    open spec fn eq_spec(&self, other: &Url) -> bool {
        &&& self.url@ == other.url@
        &&& self.host@ == other.host@
        &&& self.port@ == other.port@
        &&& self.path@ == other.path@
        &&& self.searchpart@ == other.searchpart@
    }
}

/// The record `u` is what a successful parse of the raw string `raw`
/// produces: the raw string is kept, and every derived part is the
/// corresponding function of it.
pub open spec fn parsed_from(u: Url, raw: Seq<char>) -> bool {
    &&& u.url@ == raw
    &&& spec_is_http(raw)
    &&& u.host@ == spec_host(raw)
    &&& u.port@ == spec_port(raw)
    &&& u.path@ == spec_path(raw)
    &&& u.searchpart@ == spec_searchpart(raw)
}

/// Parsing is idempotent: every derived part is a pure function of the
/// raw string, so any two records parsed from the same raw string — in
/// particular, one record parsed twice, since parsing keeps the raw
/// string — agree on all four parts.
pub proof fn lemma_parse_idempotent(u1: Url, u2: Url, raw: Seq<char>)
    requires
        parsed_from(u1, raw),
        parsed_from(u2, raw),
    ensures
        u1.url@ == u2.url@,
        u1.host@ == u2.host@,
        u1.port@ == u2.port@,
        u1.path@ == u2.path@,
        u1.searchpart@ == u2.searchpart@,
{
}

/// The four independently derived parts agree with one combined reading
/// of the raw string and do not contaminate each other: the host carries
/// no delimiter, a present port is exactly what follows the host's `:`
/// inside the host segment (so host and port recompose the segment), an
/// absent port defaults to `80` with the host taking the whole segment,
/// the path stops before any `?`, and a present searchpart is exactly
/// what follows the raw string's first `?`.
pub proof fn lemma_parts_consistent(raw: Seq<char>)
    requires
        spec_is_http(raw),
    ensures
        forall|j: int|
            0 <= j < spec_host_segment(raw).len() ==> (spec_host_segment(raw)[j] != '/'
                && spec_host_segment(raw)[j] != '?'),
        forall|j: int|
            0 <= j < spec_host(raw).len() ==> (spec_host(raw)[j] != ':' && spec_host(raw)[j] != '/'
                && spec_host(raw)[j] != '?'),
        forall|j: int| 0 <= j < spec_path(raw).len() ==> spec_path(raw)[j] != '?',
        scan_len(spec_host_segment(raw), ':', ':') < spec_host_segment(raw).len() ==> {
            &&& spec_host_segment(raw) == spec_host(raw) + seq![':'] + spec_port(raw)
            &&& forall|j: int|
                0 <= j < spec_port(raw).len() ==> (spec_port(raw)[j] != '/' && spec_port(raw)[j]
                    != '?')
        },
        scan_len(spec_host_segment(raw), ':', ':') == spec_host_segment(raw).len() ==> {
            &&& spec_host(raw) == spec_host_segment(raw)
            &&& spec_port(raw) == "80"@
        },
        scan_len(raw, '?', '?') < raw.len() ==> raw == raw.take(scan_len(raw, '?', '?') as int)
            + seq!['?'] + spec_searchpart(raw),
{
    let a = spec_after_scheme(raw);
    let he = scan_len(a, '/', '?');
    let h = spec_host_segment(raw);
    let c = scan_len(h, ':', ':');
    lemma_scan_len(a, '/', '?');
    lemma_scan_len(h, ':', ':');
    assert(h == a.take(he as int));
    assert forall|j: int| 0 <= j < h.len() implies (h[j] != '/' && h[j] != '?') by {
        assert(h[j] == a[j]);
    }
    if c < h.len() {
        assert(h =~= spec_host(raw) + seq![':'] + spec_port(raw));
    } else {
        assert(spec_host(raw) =~= h);
    }
    let sl = scan_len(a, '/', '/');
    lemma_scan_len(a, '/', '/');
    if sl < a.len() {
        let rest = a.subrange(sl as int + 1, a.len() as int);
        lemma_scan_len(rest, '?', '?');
        assert forall|j: int| 0 <= j < spec_path(raw).len() implies spec_path(raw)[j] != '?' by {
            assert(spec_path(raw)[j] == rest[j]);
        }
    }
    let q = scan_len(raw, '?', '?');
    lemma_scan_len(raw, '?', '?');
    if q < raw.len() {
        assert(raw =~= raw.take(q as int) + seq!['?'] + spec_searchpart(raw));
    }
}

} // verus!

