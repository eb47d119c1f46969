//! Path identities: opaque, totally ordered names of filesystem locations.
//!
//! A `Url` holds the bytes of a location's textual form. Equality and the
//! strict total order used for deterministic collection ordering are bytewise;
//! the final path segment (the part after the last `/`) yields the file name,
//! stem, hidden flag, and parent identity. A path whose final segment is empty
//! (a root such as `/`, or a name ending in `/`) has no file name.

use vstd::prelude::*;

verus! {

/// Byte that separates path segments.
pub const SEP: u8 = 47;

/// Byte that begins a hidden name and separates a stem from its extension.
pub const DOT: u8 = 46;

/// Index of the last occurrence of byte `c` in `s`, or `-1` if `c` is absent.
pub open spec fn last_pos(s: Seq<u8>, c: u8) -> int
    decreases s.len(),
{
    if s.len() == 0 {
        -1
    } else if s[s.len() - 1] == c {
        s.len() - 1
    } else {
        last_pos(s.drop_last(), c)
    }
}

pub proof fn lemma_last_pos_bounds(s: Seq<u8>, c: u8)
    ensures
        -1 <= last_pos(s, c) < s.len(),
        last_pos(s, c) >= 0 ==> s[last_pos(s, c)] == c,
        forall|j: int| last_pos(s, c) < j < s.len() ==> s[j] != c,
    decreases s.len(),
{
    if s.len() == 0 {
    } else if s[s.len() - 1] == c {
    } else {
        lemma_last_pos_bounds(s.drop_last(), c);
        assert(forall|j: int| 0 <= j < s.len() - 1 ==> s.drop_last()[j] == s[j]);
    }
}

pub proof fn lemma_last_pos_unique(s: Seq<u8>, c: u8, p: int)
    requires
        -1 <= p < s.len(),
        p >= 0 ==> s[p] == c,
        forall|j: int| p < j < s.len() ==> s[j] != c,
    ensures
        last_pos(s, c) == p,
    decreases s.len(),
{
    if s.len() == 0 {
    } else if s[s.len() - 1] == c {
        assert(p == s.len() - 1);
    } else {
        assert(p < s.len() - 1);
        assert(forall|j: int| 0 <= j < s.len() - 1 ==> s.drop_last()[j] == s[j]);
        lemma_last_pos_unique(s.drop_last(), c, p);
    }
}

/// Strict bytewise lexicographic order on byte sequences.
pub open spec fn lex_lt(a: Seq<u8>, b: Seq<u8>) -> bool
    decreases a.len(),
{
    if b.len() == 0 {
        false
    } else if a.len() == 0 {
        true
    } else if a[0] < b[0] {
        true
    } else if a[0] > b[0] {
        false
    } else {
        lex_lt(a.drop_first(), b.drop_first())
    }
}

pub proof fn lemma_lex_irrefl(a: Seq<u8>)
    ensures
        !lex_lt(a, a),
    decreases a.len(),
{
    if a.len() > 0 {
        lemma_lex_irrefl(a.drop_first());
    }
}

pub proof fn lemma_lex_asym(a: Seq<u8>, b: Seq<u8>)
    requires
        lex_lt(a, b),
    ensures
        !lex_lt(b, a),
    decreases a.len(),
{
    if a.len() > 0 && b.len() > 0 && a[0] == b[0] {
        lemma_lex_asym(a.drop_first(), b.drop_first());
    }
}

pub proof fn lemma_lex_trans(a: Seq<u8>, b: Seq<u8>, c: Seq<u8>)
    requires
        lex_lt(a, b),
        lex_lt(b, c),
    ensures
        lex_lt(a, c),
    decreases a.len(),
{
    if a.len() > 0 && b.len() > 0 && c.len() > 0 && a[0] == b[0] && b[0] == c[0] {
        lemma_lex_trans(a.drop_first(), b.drop_first(), c.drop_first());
    }
}

pub proof fn lemma_lex_connected(a: Seq<u8>, b: Seq<u8>)
    requires
        !lex_lt(a, b),
        !lex_lt(b, a),
    ensures
        a == b,
    decreases a.len(),
{
    if a.len() == 0 || b.len() == 0 {
        assert(a =~= b);
    } else {
        lemma_lex_connected(a.drop_first(), b.drop_first());
        assert(a =~= b) by {
            assert(forall|j: int| 1 <= j < a.len() ==> a[j] == a.drop_first()[j - 1]);
            assert(forall|j: int| 1 <= j < b.len() ==> b[j] == b.drop_first()[j - 1]);
        }
    }
}

/// Index of the last occurrence of `c` in `v`, if any.
fn rfind_byte(v: &Vec<u8>, c: u8) -> (r: Option<usize>)
    ensures
        match r {
            Some(i) => i < v.len() && last_pos(v@, c) == i,
            None => last_pos(v@, c) == -1,
        },
{
    let mut i: usize = v.len();
    while i > 0
        invariant
            i <= v.len(),
            forall|j: int| i <= j < v@.len() ==> v@[j] != c,
        decreases i,
    {
        i = i - 1;
        if v[i] == c {
            proof {
                lemma_last_pos_unique(v@, c, i as int);
            }
            return Some(i);
        }
    }
    proof {
        lemma_last_pos_unique(v@, c, -1);
    }
    None
}

/// Copy of `v[a..b]`.
fn bytes_range(v: &Vec<u8>, a: usize, b: usize) -> (r: Vec<u8>)
    requires
        a <= b <= v.len(),
    ensures
        r@ == v@.subrange(a as int, b as int),
{
    let mut r: Vec<u8> = Vec::new();
    let mut i: usize = a;
    proof {
        assert(r@ =~= v@.subrange(a as int, a as int));
    }
    while i < b
        invariant
            a <= i <= b <= v.len(),
            r@ == v@.subrange(a as int, i as int),
        decreases b - i,
    {
        r.push(v[i]);
        i = i + 1;
        proof {
            assert(r@ =~= v@.subrange(a as int, i as int));
        }
    }
    r
}

/// Bytewise equality of two byte vectors.
pub(crate) fn bytes_eq(a: &Vec<u8>, b: &Vec<u8>) -> (r: bool)
    ensures
        r == (a@ == b@),
{
    if a.len() != b.len() {
        return false;
    }
    let mut i: usize = 0;
    while i < a.len()
        invariant
            i <= a.len(),
            a.len() == b.len(),
            forall|j: int| 0 <= j < i ==> a@[j] == b@[j],
        decreases a.len() - i,
    {
        if a[i] != b[i] {
            return false;
        }
        i = i + 1;
    }
    proof {
        assert(a@ =~= b@);
    }
    true
}

/// An opaque, comparable, totally ordered identifier of a filesystem location,
/// held as the bytes of its textual form.
#[derive(Debug, PartialEq, Eq)]
pub struct Url {
    path: Vec<u8>,
}

impl View for Url {
    type V = Seq<u8>;

    closed spec fn view(&self) -> Seq<u8> {
        self.path@
    }
}

impl Clone for Url {
    fn clone(&self) -> (r: Self)
        ensures
            r@ == self@,
    {
        Url { path: clone_bytes(&self.path) }
    }
}

/// Copy of a byte vector.
pub(crate) fn clone_bytes(v: &Vec<u8>) -> (r: Vec<u8>)
    ensures
        r@ == v@,
{
    bytes_range(v, 0, v.len())
}

/// The file name of `s`: its final segment, absent when that segment is empty.
pub open spec fn name_of(s: Seq<u8>) -> Option<Seq<u8>> {
    let k = last_pos(s, SEP) + 1;
    if k == s.len() {
        None
    } else {
        Some(s.subrange(k, s.len() as int))
    }
}

/// Whether the entry at `s` is hidden: its file name begins with a dot.
/// A path with no file name is never hidden.
pub open spec fn hidden_of(s: Seq<u8>) -> bool {
    match name_of(s) {
        Some(n) => n.len() > 0 && n[0] == DOT,
        None => false,
    }
}

/// A path with no derivable file name — a root, or one whose final
/// segment is empty — is never hidden.
pub proof fn lemma_no_name_not_hidden(s: Seq<u8>)
    requires
        name_of(s) is None,
    ensures
        !hidden_of(s),
{
}

/// The stem of `s`: its file name up to the last dot, unless that dot
/// leads the name or is absent, in which case the whole name.
pub open spec fn stem_of(s: Seq<u8>) -> Option<Seq<u8>> {
    match name_of(s) {
        Some(n) => {
            let d = last_pos(n, DOT);
            if d > 0 {
                Some(n.subrange(0, d))
            } else {
                Some(n)
            }
        },
        None => None,
    }
}

/// The parent of `s`: what precedes its final segment, without the trailing
/// separator except for a root. A root or a separator-free path has none.
pub open spec fn parent_of(s: Seq<u8>) -> Option<Seq<u8>> {
    let k = last_pos(s, SEP) + 1;
    if k == 0 {
        None
    } else if s.len() == 1 {
        None
    } else if k == 1 {
        Some(s.subrange(0, 1))
    } else {
        Some(s.subrange(0, k - 1))
    }
}

/// View of an optional byte vector.
pub open spec fn opt_bytes_view(o: Option<Vec<u8>>) -> Option<Seq<u8>> {
    match o {
        Some(v) => Some(v@),
        None => None,
    }
}

/// View of an optional path identity.
pub open spec fn opt_url_view(o: Option<Url>) -> Option<Seq<u8>> {
    match o {
        Some(u) => Some(u@),
        None => None,
    }
}

impl Url {
    /// A path identity over the given bytes.
    pub fn new(path: Vec<u8>) -> (r: Url)
        ensures
            r@ == path@,
    {
        Url { path }
    }

    /// The bytes of this identity's textual form.
    pub fn bytes(&self) -> (r: &Vec<u8>)
        ensures
            r@ == self@,
    {
        &self.path
    }

    /// The file name: the final path segment, absent when empty.
    pub fn file_name(&self) -> (r: Option<Vec<u8>>)
        ensures
            opt_bytes_view(r) == name_of(self@),
    {
        proof {
            lemma_last_pos_bounds(self@, SEP);
        }
        let k = match rfind_byte(&self.path, SEP) {
            Some(i) => i + 1,
            None => 0,
        };
        if k == self.path.len() {
            None
        } else {
            Some(bytes_range(&self.path, k, self.path.len()))
        }
    }

    /// Whether the file name begins with a dot; false when there is none.
    pub fn is_hidden_name(&self) -> (r: bool)
        ensures
            r == hidden_of(self@),
    {
        match self.file_name() {
            Some(n) => n.len() > 0 && n[0] == DOT,
            None => false,
        }
    }

    /// The file stem: the name up to its last dot, unless that dot leads.
    pub fn file_stem(&self) -> (r: Option<Vec<u8>>)
        ensures
            opt_bytes_view(r) == stem_of(self@),
    {
        match self.file_name() {
            Some(n) => {
                match rfind_byte(&n, DOT) {
                    Some(d) => {
                        if d > 0 {
                            Some(bytes_range(&n, 0, d))
                        } else {
                            Some(n)
                        }
                    },
                    None => Some(n),
                }
            },
            None => None,
        }
    }

    /// The parent identity, if this identity has one.
    pub fn parent_url(&self) -> (r: Option<Url>)
        ensures
            opt_url_view(r) == parent_of(self@),
    {
        proof {
            lemma_last_pos_bounds(self@, SEP);
        }
        let k = match rfind_byte(&self.path, SEP) {
            Some(i) => i + 1,
            None => 0,
        };
        if k == 0 {
            None
        } else if self.path.len() == 1 {
            None
        } else if k == 1 {
            Some(Url { path: bytes_range(&self.path, 0, 1) })
        } else {
            Some(Url { path: bytes_range(&self.path, 0, k - 1) })
        }
    }

    /// Whether this identity precedes `other` in the strict total order.
    pub fn lt(&self, other: &Url) -> (r: bool)
        ensures
            r == lex_lt(self@, other@),
    {
        let alen = self.path.len();
        let blen = other.path.len();
        let mut i: usize = 0;
        proof {
            assert(self@.skip(0) =~= self@);
            assert(other@.skip(0) =~= other@);
        }
        while i < alen && i < blen
            invariant
                i <= alen,
                i <= blen,
                alen == self@.len(),
                blen == other@.len(),
                lex_lt(self@, other@) == lex_lt(self@.skip(i as int), other@.skip(i as int)),
            decreases alen - i,
        {
            let x = self.path[i];
            let y = other.path[i];
            if x < y {
                return true;
            }
            if y < x {
                return false;
            }
            proof {
                assert(self@.skip(i as int).drop_first() =~= self@.skip(i as int + 1));
                assert(other@.skip(i as int).drop_first() =~= other@.skip(i as int + 1));
            }
            i = i + 1;
        }
        if i < blen {
            true
        } else {
            false
        }
    }
}

} // verus!
