//! The parts of a URI that a request needs: scheme, authority, host, port
//! and resource.
use vstd::prelude::*;
use vstd::string::*;

verus! {

/// `"://"`, between the scheme and the authority.
pub open spec fn scheme_sep() -> Seq<char> {
    seq![':', '/', '/']
}

pub open spec fn is_digit(c: char) -> bool {
    '0' <= c && c <= '9'
}

/// The number that the decimal digits `d` write.
pub open spec fn digits_value(d: Seq<char>) -> int
    decreases d.len(),
{
    if d.len() == 0 {
        0
    } else {
        10 * digits_value(d.drop_last()) + (d.last() as int - '0' as int)
    }
}

/// `au` is `h:d`, where `h` holds no `:` and `d` is a decimal number that
/// fits in 16 bits.
pub open spec fn port_split(au: Seq<char>, h: Seq<char>, d: Seq<char>) -> bool {
    &&& au == h + seq![':'] + d
    &&& !h.contains(':')
    &&& port_digits_ok(d)
}

/// `s` reads `sc://au pa`: a scheme without `:`, an authority without `/`
/// or `?` whose port, if any, is valid, and a path that is empty or starts
/// with `/` or `?`.
pub open spec fn uri_shape(s: Seq<char>, sc: Seq<char>, au: Seq<char>, pa: Seq<char>) -> bool {
    &&& s == sc + scheme_sep() + au + pa
    &&& sc.len() > 0
    &&& !sc.contains(':')
    &&& !au.contains('/')
    &&& !au.contains('?')
    &&& pa.len() == 0 || pa[0] == '/' || pa[0] == '?'
    &&& au.contains(':') ==> exists|h: Seq<char>, d: Seq<char>| port_split(au, h, d)
}

/// Where each part of a URI stands in its text.
proof fn lemma_shape_parts(s: Seq<char>, sc: Seq<char>, au: Seq<char>, pa: Seq<char>)
    requires
        uri_shape(s, sc, au, pa),
    ensures
        forall|j: int| 0 <= j < (sc.len() as int) ==> s[j] != ':',
        s[(sc.len() as int) as int] == ':',
        s[(sc.len() as int) + 1] == '/',
        s[(sc.len() as int) + 2] == '/',
        forall|j: int| (sc.len() as int) + 3 <= j < (sc.len() as int) + 3 + (au.len() as int) ==> s[j] != '/' && s[j] != '?',
        (sc.len() as int) + 3 + (au.len() as int) <= s.len(),
        (sc.len() as int) + 3 + (au.len() as int) < s.len() ==> s[(sc.len() as int) + 3 + (au.len() as int)] == '/' || s[(sc.len() as int) + 3
            + (au.len() as int)] == '?',
        s.subrange((sc.len() as int) + 3, (sc.len() as int) + 3 + (au.len() as int)) == au,
{
    let b = (sc.len() as int) + 3;
    assert forall|j: int| 0 <= j < (sc.len() as int) implies s[j] != ':' by {
        assert(s[j] == sc[j]);
    }
    assert forall|j: int| b <= j < b + (au.len() as int) implies s[j] != '/' && s[j] != '?' by {
        assert(s[j] == au[j - b]);
    }
    if b + (au.len() as int) < s.len() {
        assert(s[b + (au.len() as int)] == pa[0]);
    }
    assert(s.subrange(b, b + (au.len() as int)) =~= au);
}

/// The value of a prefix of a digit string is at most that of the whole.
proof fn lemma_digits_prefix(d: Seq<char>, j: int)
    requires
        0 <= j <= d.len(),
        forall|i: int| 0 <= i < d.len() ==> is_digit(#[trigger] d[i]),
    ensures
        digits_value(d.take(j)) <= digits_value(d),
    decreases d.len(),
{
    if j < d.len() {
        assert(d.drop_last().take(j) =~= d.take(j));
        lemma_digits_prefix(d.drop_last(), j);
        lemma_digits_nonneg(d.drop_last());
    } else {
        assert(d.take(j) =~= d);
    }
}

proof fn lemma_digits_nonneg(d: Seq<char>)
    requires
        forall|i: int| 0 <= i < d.len() ==> is_digit(#[trigger] d[i]),
    ensures
        digits_value(d) >= 0,
    decreases d.len(),
{
    if d.len() > 0 {
        lemma_digits_nonneg(d.drop_last());
    }
}

/// `d` is a non-empty decimal number that fits in 16 bits.
pub open spec fn port_digits_ok(d: Seq<char>) -> bool {
    &&& d.len() > 0
    &&& forall|i: int| 0 <= i < d.len() ==> is_digit(#[trigger] d[i])
    &&& digits_value(d) <= 65535
}

/// The port that the decimal digits `d` write.
fn parse_port(d: &str) -> (r: Option<u16>)
    ensures
        r is Some <==> port_digits_ok(d@),
        r matches Some(p) ==> p as int == digits_value(d@),
{
    let dlen = d.unicode_len();
    if dlen == 0 {
        return None;
    }
    let mut v: u32 = 0;
    let mut j: usize = 0;
    while j < dlen
        invariant
            dlen == d@.len(),
            j <= dlen,
            v <= 65535,
            v as int == digits_value(d@.take(j as int)),
            forall|m: int| 0 <= m < j ==> is_digit(#[trigger] d@[m]),
        decreases dlen - j,
    {
        let ch = d.get_char(j);
        if !('0' <= ch && ch <= '9') {
            return None;
        }
        let nv: u32 = v * 10 + (ch as u32 - '0' as u32);
        proof {
            let t = d@.take(j + 1);
            assert(t.drop_last() =~= d@.take(j as int));
            assert(t.last() == ch);
            assert(nv as int == digits_value(t));
        }
        if nv > 65535 {
            proof {
                if port_digits_ok(d@) {
                    lemma_digits_prefix(d@, j + 1);
                }
            }
            return None;
        }
        v = nv;
        j = j + 1;
    }
    assert(d@.take(dlen as int) =~= d@);
    Some(v as u16)
}

/// The first position at or after `from` that holds `a` or `b`; the length
/// where there is none.
fn find_either(s: &str, from: usize, a: char, b: char) -> (r: usize)
    requires
        from <= s@.len(),
    ensures
        from <= r <= s@.len(),
        forall|j: int| from <= j < r ==> s@[j] != a && s@[j] != b,
        r < s@.len() ==> s@[r as int] == a || s@[r as int] == b,
{
    let n = s.unicode_len();
    let mut i: usize = from;
    while i < n
        invariant
            n == s@.len(),
            from <= i <= n,
            forall|j: int| from <= j < i ==> s@[j] != a && s@[j] != b,
        decreases n - i,
    {
        let ch = s.get_char(i);
        if ch == a || ch == b {
            return i;
        }
        i = i + 1;
    }
    i
}

/// The scheme whose requests travel encrypted.
pub open spec fn secure_scheme() -> Seq<char> {
    seq!['h', 't', 't', 'p', 's']
}

/// A parsed URI of the shape `scheme://host[:port][path][?query]`.
pub struct Uri {
    text: String,
    scheme: String,
    authority: String,
    host: String,
    port: Option<u16>,
    path: String,
}

impl Uri {
    /// The whole URI as it was written.
    pub closed spec fn text(&self) -> Seq<char> {
        self.text@
    }

    pub closed spec fn scheme_view(&self) -> Seq<char> {
        self.scheme@
    }

    /// `host[:port]`.
    pub closed spec fn authority_view(&self) -> Seq<char> {
        self.authority@
    }

    pub closed spec fn host_view(&self) -> Seq<char> {
        self.host@
    }

    pub closed spec fn port_view(&self) -> Option<u16> {
        self.port
    }

    /// What follows the authority: path and query, possibly empty.
    pub closed spec fn path_view(&self) -> Seq<char> {
        self.path@
    }

    /// The resource that a request line names: the path and query, or `/`.
    pub open spec fn resource_view(&self) -> Seq<char> {
        if self.path_view().len() == 0 {
            seq!['/']
        } else {
            self.path_view()
        }
    }

    /// The port to connect to: the explicit one, else the scheme's default.
    pub open spec fn corr_port_view(&self) -> u16 {
        match self.port_view() {
            Some(p) => p,
            None => if self.scheme_view() == secure_scheme() { 443 } else { 80 },
        }
    }

    /// The parts of a parsed URI put back together give its text.
    pub open spec fn wf(&self) -> bool {
        &&& self.text() == self.scheme_view() + scheme_sep() + self.authority_view() + self.path_view()
        &&& self.scheme_view().len() > 0
        &&& !self.scheme_view().contains(':')
        &&& !self.authority_view().contains('/')
        &&& !self.authority_view().contains('?')
        &&& self.path_view().len() == 0 || self.path_view()[0] == '/' || self.path_view()[0] == '?'
        &&& match self.port_view() {
            None => self.authority_view() == self.host_view() && !self.host_view().contains(':'),
            Some(p) => exists|d: Seq<char>|
                {
                    &&& port_split(self.authority_view(), self.host_view(), d)
                    &&& digits_value(d) == p as int
                },
        }
    }

    /// Parses `s`: `Some` exactly where `s` is of the shape
    /// `scheme://host[:port][path]`, with a port of decimal digits whose
    /// value fits in 16 bits.
    #[verifier::rlimit(60)]
    pub fn parse(s: &str) -> (r: Option<Uri>)
        ensures
            r matches Some(u) ==> u.wf() && u.text() == s@,
            r is Some <==> exists|sc: Seq<char>, au: Seq<char>, pa: Seq<char>| uri_shape(s@, sc, au, pa),
    {
        let ghost shaped = exists|sc: Seq<char>, au: Seq<char>, pa: Seq<char>| uri_shape(s@, sc, au, pa);
        let ghost w: (Seq<char>, Seq<char>, Seq<char>) = if shaped {
            choose|sc: Seq<char>, au: Seq<char>, pa: Seq<char>| uri_shape(s@, sc, au, pa)
        } else {
            (Seq::empty(), Seq::empty(), Seq::empty())
        };
        let n = s.unicode_len();
        let i = find_either(s, 0, ':', ':');
        proof {
            if shaped {
                lemma_shape_parts(s@, w.0, w.1, w.2);
                if i < w.0.len() {
                    assert(s@[i as int] == w.0[i as int]);
                    assert(w.0.contains(':'));
                }
            }
        }
        if i == 0 || n - i < 3 || s.get_char(i + 1) != '/' || s.get_char(i + 2) != '/' {
            return None;
        }
        let start: usize = i + 3;
        let k = find_either(s, start, '/', '?');
        let scheme = s.substring_char(0, i);
        let authority = s.substring_char(start, k);
        let path = s.substring_char(k, n);
        proof {
            if shaped {
                let e = start + w.1.len();
                if k < e {
                    assert(s@[k as int] == w.1[k - start]);
                    assert(w.1.contains(s@[k as int]));
                }
                if e < k {
                    assert(s@[e] == w.2[0]);
                }
                assert(authority@ =~= w.1);
            }
        }
        let alen = authority.unicode_len();
        let c = find_either(authority, 0, ':', ':');
        let host = authority.substring_char(0, c);
        let ghost hd: (Seq<char>, Seq<char>) = if shaped && c < alen {
            assert(authority@.contains(':')) by {
                assert(authority@[c as int] == ':');
            }
            choose|h: Seq<char>, d: Seq<char>| port_split(authority@, h, d)
        } else {
            (Seq::empty(), Seq::empty())
        };
        proof {
            if shaped && c < alen {
                let h = hd.0;
                assert(authority@[h.len() as int] == ':');
                if c < h.len() {
                    assert(authority@[c as int] == h[c as int]);
                    assert(h.contains(':'));
                }
            }
        }
        let mut port: Option<u16> = None;
        if c < alen {
            let digits = authority.substring_char(c + 1, alen);
            proof {
                if shaped {
                    assert(digits@ =~= hd.1);
                }
            }
            match parse_port(digits) {
                None => {
                    return None;
                },
                Some(v) => {
                    proof {
                        assert(authority@ =~= host@ + seq![':'] + digits@);
                        assert(port_split(authority@, host@, digits@));
                    }
                    port = Some(v);
                },
            }
        } else {
            assert(host@ =~= authority@);
        }
        proof {
            assert(s@ =~= scheme@ + scheme_sep() + authority@ + path@);
            if scheme@.contains(':') {
                let m = choose|m: int| 0 <= m < scheme@.len() && scheme@[m] == ':';
                assert(s@[m] == ':');
            }
            if authority@.contains('/') {
                let m = choose|m: int| 0 <= m < authority@.len() && authority@[m] == '/';
                assert(s@[start + m] == '/');
            }
            if authority@.contains('?') {
                let m = choose|m: int| 0 <= m < authority@.len() && authority@[m] == '?';
                assert(s@[start + m] == '?');
            }
            if host@.contains(':') {
                let m = choose|m: int| 0 <= m < host@.len() && host@[m] == ':';
                assert(authority@[m] == ':');
            }
            if path@.len() > 0 {
                assert(path@[0] == s@[k as int]);
            }
            assert(uri_shape(s@, scheme@, authority@, path@));
        }
        Some(
            Uri {
                text: String::from_str(s),
                scheme: String::from_str(scheme),
                authority: String::from_str(authority),
                host: String::from_str(host),
                port,
                path: String::from_str(path),
            },
        )
    }

    /// The host, `None` where the URI names none.
    pub fn host(&self) -> (r: Option<&str>)
        ensures
            r matches Some(h) ==> h@ == self.host_view() && h@.len() > 0,
            r is None ==> self.host_view().len() == 0,
    {
        if self.host.as_str().unicode_len() == 0 {
            None
        } else {
            Some(self.host.as_str())
        }
    }

    /// The scheme, such as `http`.
    pub fn scheme(&self) -> (r: &str)
        ensures
            r@ == self.scheme_view(),
    {
        self.scheme.as_str()
    }

    /// `host[:port]`, as the `Host` header carries it.
    pub fn authority(&self) -> (r: &str)
        ensures
            r@ == self.authority_view(),
    {
        self.authority.as_str()
    }

    /// The whole URI as it was written.
    pub fn as_str(&self) -> (r: &str)
        ensures
            r@ == self.text(),
    {
        self.text.as_str()
    }

    /// The path and query, or `/` where there is none.
    pub fn resource(&self) -> (r: String)
        ensures
            r@ == self.resource_view(),
    {
        if self.path.as_str().unicode_len() == 0 {
            proof { reveal_strlit("/"); }
            String::from_str("/")
        } else {
            String::from_str(self.path.as_str())
        }
    }

    /// Whether the scheme asks for an encrypted transport.
    pub fn is_secure(&self) -> (r: bool)
        ensures
            r == (self.scheme_view() == secure_scheme()),
    {
        proof {
            reveal_strlit("https");
            assert("https"@ =~= secure_scheme());
        }
        same_text(self.scheme.as_str(), "https")
    }

    /// The port to connect to: the explicit one, else 443 for `https` and 80
    /// otherwise.
    pub fn corr_port(&self) -> (r: u16)
        ensures
            r == self.corr_port_view(),
    {
        match self.port {
            Some(p) => p,
            None => if self.is_secure() { 443 } else { 80 },
        }
    }
}

/// Whether two texts are the same, character for character.
pub fn same_text(a: &str, b: &str) -> (r: bool)
    ensures
        r == (a@ == b@),
{
    let n = a.unicode_len();
    if n != b.unicode_len() {
        return false;
    }
    let mut i: usize = 0;
    while i < n
        invariant
            n == a@.len(),
            n == b@.len(),
            i <= n,
            forall|j: int| 0 <= j < i ==> a@[j] == b@[j],
        decreases n - i,
    {
        if a.get_char(i) != b.get_char(i) {
            return false;
        }
        i = i + 1;
    }
    assert(a@ =~= b@);
    true
}

} // verus!
