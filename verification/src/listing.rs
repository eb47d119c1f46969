//! Snapshot collections: mappings from path identity to entry snapshot,
//! keys unique, iterated in the identity order.
//!
//! The collection is a vector kept strictly sorted by the identities'
//! bytewise order, so iteration order is a property of the keys alone:
//! neither filesystem return order nor insertion order shows through.
//! Inserting a snapshot for an identity already present replaces the old
//! snapshot; two snapshots of one identity are never merged.

use vstd::prelude::*;

use crate::file::File;
use crate::url::{
    Url, bytes_eq, lemma_lex_asym, lemma_lex_connected, lemma_lex_irrefl, lemma_lex_trans, lex_lt,
};

verus! {

/// Whether `es` is strictly ascending in the identity order.
pub open spec fn strictly_sorted(es: Seq<File>) -> bool {
    forall|i: int, j: int| 0 <= i < j < es.len() ==> lex_lt(es[i].url@, es[j].url@)
}

/// Whether some entry of `es` is keyed by `k`.
pub open spec fn has_key(es: Seq<File>, k: Seq<u8>) -> bool {
    exists|i: int| 0 <= i < es.len() && es[i].url@ == k
}

/// What inserting `f` leaves of a collection: exactly the entries of `pre`
/// whose key differs from `f`'s, and `f` itself.
pub open spec fn inserted(pre: Seq<File>, post: Seq<File>, f: File) -> bool {
    &&& post.contains(f)
    &&& forall|g: File| pre.contains(g) && g.url@ != f.url@ ==> post.contains(g)
    &&& forall|g: File| post.contains(g) ==> g == f || (pre.contains(g) && g.url@ != f.url@)
    &&& post.len() == if has_key(pre, f.url@) {
        pre.len()
    } else {
        pre.len() + 1
    }
}

/// An ordered, key-unique collection of entry snapshots.
pub struct FileMap {
    entries: Vec<File>,
}

impl View for FileMap {
    type V = Seq<File>;

    closed spec fn view(&self) -> Seq<File> {
        self.entries@
    }
}

/// Two entries with one key stand at one position: keys are unique.
pub proof fn lemma_key_unique(es: Seq<File>, i: int, j: int)
    requires
        strictly_sorted(es),
        0 <= i < es.len(),
        0 <= j < es.len(),
        es[i].url@ == es[j].url@,
    ensures
        i == j,
{
    if i < j || j < i {
        lemma_lex_irrefl(es[i].url@);
    }
}

/// Ordering law: a collection holding two distinct identities iterates them
/// in their identity order, wherever insertion put them.
pub proof fn lemma_iteration_order(es: Seq<File>, i: int, j: int)
    requires
        strictly_sorted(es),
        0 <= i < es.len(),
        0 <= j < es.len(),
        lex_lt(es[i].url@, es[j].url@),
    ensures
        i < j,
{
    if i == j {
        lemma_lex_irrefl(es[i].url@);
    } else if j < i {
        lemma_lex_asym(es[j].url@, es[i].url@);
    }
}

/// Replacement law: inserting `s2` for an identity already holding `s1`
/// yields a collection holding `s2` and no longer `s1` — never a merge.
pub proof fn lemma_replacement(pre: Seq<File>, post: Seq<File>, s1: File, s2: File)
    requires
        inserted(pre, post, s2),
        pre.contains(s1),
        s1.url@ == s2.url@,
        s1 != s2,
    ensures
        post.contains(s2),
        !post.contains(s1),
{
}

proof fn lemma_insert_replace(pre: Seq<File>, post: Seq<File>, f: File, p: int)
    requires
        strictly_sorted(pre),
        0 <= p < pre.len(),
        forall|j: int| 0 <= j < p ==> lex_lt(pre[j].url@, f.url@),
        pre[p].url@ == f.url@,
        post == pre.update(p, f),
    ensures
        strictly_sorted(post),
        inserted(pre, post, f),
{
    assert(post.len() == pre.len());
    assert(forall|i: int| 0 <= i < pre.len() ==> post[i].url@ == pre[i].url@);
    assert(post.contains(f)) by {
        assert(post[p] == f);
    }
    assert forall|g: File| pre.contains(g) && g.url@ != f.url@ implies post.contains(g) by {
        let i = choose|i: int| 0 <= i < pre.len() && pre[i] == g;
        assert(post[i] == g);
    }
    assert forall|g: File| post.contains(g) implies g == f || (pre.contains(g) && g.url@
        != f.url@) by {
        let i = choose|i: int| 0 <= i < post.len() && post[i] == g;
        if i != p {
            assert(pre[i] == g);
            if g.url@ == f.url@ {
                lemma_key_unique(pre, i, p);
            }
        }
    }
    assert(has_key(pre, f.url@)) by {
        assert(pre[p].url@ == f.url@);
    }
}

proof fn lemma_insert_fresh(pre: Seq<File>, post: Seq<File>, f: File, p: int)
    requires
        strictly_sorted(pre),
        0 <= p <= pre.len(),
        forall|j: int| 0 <= j < p ==> lex_lt(pre[j].url@, f.url@),
        p < pre.len() ==> lex_lt(f.url@, pre[p].url@),
        post == pre.insert(p, f),
    ensures
        strictly_sorted(post),
        inserted(pre, post, f),
{
    assert(post.len() == pre.len() + 1);
    assert(forall|i: int| 0 <= i < p ==> post[i] == pre[i]);
    assert(post[p] == f);
    assert(forall|i: int| p < i < post.len() ==> post[i] == pre[i - 1]);
    assert forall|i: int, j: int| 0 <= i < j < post.len() implies lex_lt(
        post[i].url@,
        post[j].url@,
    ) by {
        if i < p && j == p {
        } else if i == p && j > p {
            if j - 1 > p {
                lemma_lex_trans(f.url@, pre[p].url@, pre[j - 1].url@);
            }
        } else if i < p && j > p {
            if p < pre.len() {
                if i == j - 1 {
                } else {
                    assert(lex_lt(pre[i].url@, pre[j - 1].url@));
                }
            }
        }
    }
    assert(!has_key(pre, f.url@)) by {
        if has_key(pre, f.url@) {
            let i = choose|i: int| 0 <= i < pre.len() && pre[i].url@ == f.url@;
            if i < p {
                lemma_lex_irrefl(f.url@);
            } else if i == p {
                lemma_lex_irrefl(f.url@);
            } else {
                lemma_lex_trans(f.url@, pre[p].url@, pre[i].url@);
                lemma_lex_irrefl(f.url@);
            }
        }
    }
    assert(post.contains(f)) by {
        assert(post[p] == f);
    }
    assert forall|g: File| pre.contains(g) && g.url@ != f.url@ implies post.contains(g) by {
        let i = choose|i: int| 0 <= i < pre.len() && pre[i] == g;
        if i < p {
            assert(post[i] == g);
        } else {
            assert(post[i + 1] == g);
        }
    }
    assert forall|g: File| post.contains(g) implies g == f || (pre.contains(g) && g.url@
        != f.url@) by {
        let i = choose|i: int| 0 <= i < post.len() && post[i] == g;
        if i < p {
            assert(pre[i] == g);
            if g.url@ == f.url@ {
                lemma_lex_irrefl(f.url@);
            }
        } else if i > p {
            assert(pre[i - 1] == g);
            if g.url@ == f.url@ {
                if i - 1 > p {
                    lemma_lex_trans(f.url@, pre[p].url@, pre[i - 1].url@);
                }
                lemma_lex_irrefl(f.url@);
            }
        }
    }
}

/// Position of the first entry not below `key`, in a sorted vector.
fn lower_bound(entries: &Vec<File>, key: &Url) -> (p: usize)
    ensures
        p <= entries@.len(),
        forall|j: int| 0 <= j < p ==> lex_lt(entries@[j].url@, key@),
        p < entries@.len() ==> !lex_lt(entries@[p as int].url@, key@),
{
    let mut p: usize = 0;
    while p < entries.len()
        invariant
            p <= entries@.len(),
            forall|j: int| 0 <= j < p ==> lex_lt(entries@[j].url@, key@),
        decreases entries@.len() - p,
    {
        if !entries[p].url.lt(key) {
            return p;
        }
        p = p + 1;
    }
    p
}

impl FileMap {
    /// Whether the entries stand strictly sorted by identity: the
    /// collection's invariant, established by every constructor and
    /// preserved by insertion.
    pub open spec fn wf(&self) -> bool {
        strictly_sorted(self@)
    }

    /// An empty collection.
    pub fn new() -> (r: FileMap)
        ensures
            r@.len() == 0,
            r.wf(),
    {
        FileMap { entries: Vec::new() }
    }

    /// How many entries the collection holds.
    pub fn len(&self) -> (r: usize)
        ensures
            r == self@.len(),
    {
        self.entries.len()
    }

    /// The entry at iteration position `i`.
    pub fn nth(&self, i: usize) -> (r: &File)
        requires
            i < self@.len(),
        ensures
            *r == self@[i as int],
    {
        &self.entries[i]
    }

    /// The entry keyed by `url`, if one is held.
    pub fn get(&self, url: &Url) -> (r: Option<&File>)
        ensures
            match r {
                Some(g) => self@.contains(*g) && g.url@ == url@,
                None => !has_key(self@, url@),
            },
    {
        let mut i: usize = 0;
        while i < self.entries.len()
            invariant
                i <= self@.len(),
                forall|j: int| 0 <= j < i ==> self@[j].url@ != url@,
            decreases self@.len() - i,
        {
            if bytes_eq(self.entries[i].url.bytes(), url.bytes()) {
                let r = &self.entries[i];
                proof {
                    assert(self@.contains(self@[i as int]));
                }
                return Some(r);
            }
            i = i + 1;
        }
        proof {
            assert(!has_key(self@, url@)) by {
                if has_key(self@, url@) {
                    let j = choose|j: int| 0 <= j < self@.len() && self@[j].url@ == url@;
                    assert(false);
                }
            }
        }
        None
    }

    /// Key-unique insertion: the entry keyed by `f`'s identity becomes `f`,
    /// every other entry stays, and the order stays the identity order.
    pub fn insert(&mut self, f: File)
        requires
            old(self).wf(),
        ensures
            final(self).wf(),
            inserted(old(self)@, final(self)@, f),
    {
        let ghost pre = self.entries@;
        let ghost fi = f;
        let p = lower_bound(&self.entries, &f.url);
        if p < self.entries.len() && !f.url.lt(&self.entries[p].url) {
            proof {
                lemma_lex_connected(pre[p as int].url@, fi.url@);
            }
            self.entries[p] = f;
            proof {
                lemma_insert_replace(pre, self.entries@, fi, p as int);
            }
        } else {
            self.entries.insert(p, f);
            proof {
                lemma_insert_fresh(pre, self.entries@, fi, p as int);
            }
        }
    }
}

impl File {
    /// Singleton aggregation: a collection of size one whose sole entry is
    /// this snapshot, keyed by its identity.
    pub fn into_map(self) -> (m: FileMap)
        ensures
            m.wf(),
            m@.len() == 1,
            m@[0] == self,
    {
        let ghost s = self;
        let mut m = FileMap::new();
        m.insert(self);
        proof {
            assert(m@.contains(s));
            let i = choose|i: int| 0 <= i < m@.len() && m@[i] == s;
            assert(i == 0);
        }
        m
    }
}

} // verus!
