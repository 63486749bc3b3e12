use vstd::prelude::*;

use crate::frontmatter::assoc;
use crate::text::{bytes_eq, subvec};

verus! {

/// One markdown document: a filename and its raw bytes.
pub struct Document {
    pub name: Vec<u8>,
    pub data: Vec<u8>,
}

/// The read-only set of documents the site serves, keyed by filename.
///
/// It is filled once at startup and only read afterwards.
pub struct ContentStore {
    docs: Vec<Document>,
}

impl ContentStore {
    /// The documents as (filename, bytes) pairs, in insertion order.
    pub closed spec fn entries(&self) -> Seq<(Seq<u8>, Seq<u8>)> {
        self.docs@.map(|i: int, d: Document| (d.name@, d.data@))
    }

    /// Filenames are unique: the store is a map.
    pub open spec fn wf(&self) -> bool {
        forall|i: int, j: int|
            0 <= i < j < self.entries().len() ==> self.entries()[i].0 != self.entries()[j].0
    }

    pub fn new() -> (s: Self)
        ensures
            s.entries() == Seq::<(Seq<u8>, Seq<u8>)>::empty(),
            s.wf(),
    {
        let s = ContentStore { docs: Vec::new() };
        proof {
            assert(s.entries() =~= Seq::<(Seq<u8>, Seq<u8>)>::empty());
        }
        s
    }

    pub open spec fn has_name(&self, name: Seq<u8>) -> bool {
        exists|i: int| 0 <= i < self.entries().len() && self.entries()[i].0 == name
    }

    /// Adds a document. A name already present is rejected, so that the
    /// store stays a map.
    pub fn add(&mut self, name: Vec<u8>, data: Vec<u8>) -> (ok: bool)
        requires
            old(self).wf(),
        ensures
            final(self).wf(),
            ok <==> !old(self).has_name(name@),
            ok ==> final(self).entries() == old(self).entries().push((name@, data@)),
            !ok ==> *final(self) == *old(self),
    {
        let mut i: usize = 0;
        while i < self.docs.len()
            invariant
                i <= self.docs.len(),
                *self == *old(self),
                self.wf(),
                self.entries().len() == self.docs.len(),
                forall|k: int| 0 <= k < i ==> self.entries()[k].0 != name@,
            decreases self.docs.len() - i,
        {
            if bytes_eq(&self.docs[i].name, &name) {
                proof {
                    assert(self.entries()[i as int].0 == name@);
                }
                return false;
            }
            i = i + 1;
        }
        let ghost old_entries = self.entries();
        self.docs.push(Document { name, data });
        proof {
            assert(self.entries() =~= old_entries.push(
                (self.docs@[self.docs@.len() - 1].name@, self.docs@[self.docs@.len() - 1].data@),
            ));
        }
        true
    }

    pub fn doc_count(&self) -> (n: usize)
        ensures
            n == self.entries().len(),
    {
        self.docs.len()
    }

    /// The filename and bytes of the document at a position.
    pub fn doc_at(&self, i: usize) -> (r: (&Vec<u8>, &Vec<u8>))
        requires
            i < self.entries().len(),
        ensures
            r.0@ == self.entries()[i as int].0,
            r.1@ == self.entries()[i as int].1,
    {
        (&self.docs[i].name, &self.docs[i].data)
    }

    /// The filenames of all documents, in insertion order.
    pub fn list(&self) -> (r: Vec<Vec<u8>>)
        ensures
            r@.len() == self.entries().len(),
            forall|i: int| 0 <= i < r@.len() ==> r@[i]@ == self.entries()[i].0,
    {
        let mut out: Vec<Vec<u8>> = Vec::new();
        let mut i: usize = 0;
        while i < self.docs.len()
            invariant
                i <= self.docs.len(),
                self.entries().len() == self.docs.len(),
                out@.len() == i,
                forall|k: int| 0 <= k < i ==> out@[k]@ == self.entries()[k].0,
            decreases self.docs.len() - i,
        {
            let n = subvec(&self.docs[i].name, 0, self.docs[i].name.len());
            proof {
                assert(self.docs@[i as int].name@.subrange(
                    0,
                    self.docs@[i as int].name@.len() as int,
                ) =~= self.docs@[i as int].name@);
            }
            out.push(n);
            i = i + 1;
        }
        out
    }

    /// Looks a filename up; the first document with that name answers.
    pub fn get(&self, name: &Vec<u8>) -> (r: Option<&Vec<u8>>)
        ensures
            r is Some <==> assoc(self.entries(), name@) is Some,
            r is Some ==> Some(r->0@) == assoc(self.entries(), name@),
    {
        let ghost es = self.entries();
        let mut j: usize = 0;
        proof {
            assert(es.subrange(0, es.len() as int) =~= es);
        }
        while j < self.docs.len()
            invariant
                j <= self.docs.len(),
                es == self.entries(),
                es.len() == self.docs.len(),
                assoc(es.subrange(j as int, es.len() as int), name@) == assoc(es, name@),
            decreases self.docs.len() - j,
        {
            let ghost suf = es.subrange(j as int, es.len() as int);
            proof {
                assert(suf[0] == es[j as int]);
                assert(suf.drop_first() =~= es.subrange(j as int + 1, es.len() as int));
            }
            if bytes_eq(&self.docs[j].name, name) {
                return Some(&self.docs[j].data);
            }
            j = j + 1;
        }
        proof {
            assert(es.subrange(es.len() as int, es.len() as int) =~= Seq::<(Seq<u8>,
                Seq<u8>)>::empty());
        }
        None
    }
}

} // verus!
