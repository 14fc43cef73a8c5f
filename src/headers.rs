//! An ordered set of request headers, one value per key.
use vstd::prelude::*;
use crate::uri::Uri;

verus! {

/// A header list as its (key, value) pairs, in order.
pub type HeaderSeq = Seq<(Seq<char>, Seq<char>)>;

/// No two entries of `s` share a key.
pub open spec fn keys_unique(s: HeaderSeq) -> bool {
    forall|i: int, j: int| 0 <= i < s.len() && 0 <= j < s.len() && i != j ==> s[i].0 != s[j].0
}

/// Some entry of `s` has key `k`.
pub open spec fn has_key(s: HeaderSeq, k: Seq<char>) -> bool {
    exists|i: int| 0 <= i < s.len() && s[i].0 == k
}

/// `s` with `k` set to `v`: the entry of that key is overwritten where it
/// stands, else a new entry is appended.
pub open spec fn with_header(s: HeaderSeq, k: Seq<char>, v: Seq<char>) -> HeaderSeq {
    if has_key(s, k) {
        s.update(choose|i: int| 0 <= i < s.len() && s[i].0 == k, (k, v))
    } else {
        s.push((k, v))
    }
}

/// Setting a header overwrites the entry of that key where it stands, or
/// appends one; every entry of another key stays as it was, at its place,
/// and the keys stay unique.
pub proof fn lemma_with_header(s: HeaderSeq, k: Seq<char>, v: Seq<char>)
    requires
        keys_unique(s),
    ensures
        keys_unique(with_header(s, k, v)),
        with_header(s, k, v).contains((k, v)),
        with_header(s, k, v).len() == if has_key(s, k) { s.len() } else { s.len() + 1 },
        forall|i: int| 0 <= i < s.len() && s[i].0 != k ==> #[trigger] with_header(s, k, v)[i] == s[i],
        forall|i: int|
            0 <= i < with_header(s, k, v).len() && (#[trigger] with_header(s, k, v)[i]).0 == k ==> with_header(
                s,
                k,
                v,
            )[i] == (k, v),
{
    let r = with_header(s, k, v);
    if has_key(s, k) {
        let c = choose|i: int| 0 <= i < s.len() && s[i].0 == k;
        assert(r[c] == (k, v));
        assert forall|i: int, j: int| 0 <= i < r.len() && 0 <= j < r.len() && i != j implies r[i].0
            != r[j].0 by {
            assert(s[i].0 != s[j].0);
        }
    } else {
        assert(r[s.len() as int] == (k, v));
    }
}

/// Request headers, in the order they were first inserted, with one value
/// per key.
#[derive(Debug, PartialEq, Eq, Clone)]
pub struct Headers {
    entries: Vec<(String, String)>,
}

impl View for Headers {
    type V = HeaderSeq;

    closed spec fn view(&self) -> HeaderSeq {
        self.entries@.map_values(|p: (String, String)| (p.0@, p.1@))
    }
}

impl Headers {
    pub open spec fn wf(&self) -> bool {
        keys_unique(self@)
    }

    /// No headers.
    pub fn new() -> (r: Headers)
        ensures
            r.wf(),
            r@ == Seq::<(Seq<char>, Seq<char>)>::empty(),
    {
        let r = Headers { entries: Vec::new() };
        assert(r@ =~= Seq::<(Seq<char>, Seq<char>)>::empty());
        r
    }

    /// Sets `key` to `val`, keeping the other entries as they are.
    pub fn insert(&mut self, key: &str, val: &str)
        requires
            old(self).wf(),
        ensures
            final(self).wf(),
            final(self)@ == with_header(old(self)@, key@, val@),
    {
        let ghost s = self@;
        let k = String::from_str(key);
        let n = self.entries.len();
        let mut i: usize = 0;
        while i < n
            invariant
                n == self.entries@.len(),
                s == self@,
                s == old(self)@,
                k@ == key@,
                keys_unique(s),
                i <= n,
                forall|j: int| 0 <= j < i ==> s[j].0 != key@,
            decreases n - i,
        {
            assert(s[i as int] == (self.entries@[i as int].0@, self.entries@[i as int].1@));
            let same = same_key(&self.entries[i].0, &k);
            if same {
                assert(s[i as int].0 == key@);
                self.entries.remove(i);
                self.entries.insert(i, (k, String::from_str(val)));
                proof {
                    assert(has_key(s, key@));
                    let c = choose|c: int| 0 <= c < s.len() && s[c].0 == key@;
                    assert(c == i);
                    assert(self@ =~= s.update(i as int, (key@, val@)));
                    assert forall|a: int, b: int|
                        0 <= a < self@.len() && 0 <= b < self@.len() && a != b implies self@[a].0
                            != self@[b].0 by {
                        assert(s[a].0 != s[b].0);
                    }
                }
                return;
            }
            i = i + 1;
        }
        self.entries.push((k, String::from_str(val)));
        assert(self@ =~= s.push((key@, val@)));
    }

    /// How many entries there are.
    pub fn len(&self) -> (r: usize)
        ensures
            r == self@.len(),
    {
        self.entries.len()
    }

    /// The key of entry `i`.
    pub fn key(&self, i: usize) -> (r: &str)
        requires
            i < self@.len(),
        ensures
            r@ == self@[i as int].0,
    {
        self.entries[i].0.as_str()
    }

    /// The value of entry `i`.
    pub fn value(&self, i: usize) -> (r: &str)
        requires
            i < self@.len(),
        ensures
            r@ == self@[i as int].1,
    {
        self.entries[i].1.as_str()
    }

    /// The headers every request to `uri` starts with: `Host` and `Referer`.
    pub fn default_http(uri: &Uri) -> (r: Headers)
        ensures
            r.wf(),
            r@ == seq![(host_key(), uri.authority_view()), (referer_key(), uri.text())],
    {
        let mut r = Headers::new();
        proof {
            reveal_strlit("Host");
            reveal_strlit("Referer");
        }
        r.insert("Host", uri.authority());
        r.insert("Referer", uri.as_str());
        proof {
            assert("Host"@ =~= host_key());
            assert("Referer"@ =~= referer_key());
            assert(!has_key(Seq::empty(), host_key()));
            assert(!("Host"@ =~= "Referer"@));
            let s1 = seq![(host_key(), uri.authority_view())];
            assert(!has_key(s1, referer_key())) by {
                assert(s1[0].0 != referer_key());
            }
        }
        assert(r@ =~= seq![(host_key(), uri.authority_view()), (referer_key(), uri.text())]);
        r
    }
}

fn same_key(a: &String, b: &String) -> (r: bool)
    ensures
        r == (a@ == b@),
{
    *a == *b
}

pub open spec fn host_key() -> Seq<char> {
    seq!['H', 'o', 's', 't']
}

pub open spec fn referer_key() -> Seq<char> {
    seq!['R', 'e', 'f', 'e', 'r', 'e', 'r']
}

} // verus!
