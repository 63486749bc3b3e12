use vstd::prelude::*;

verus! {

/// Copies the bytes of `v` in the range `a..b`.
pub fn subvec(v: &Vec<u8>, a: usize, b: usize) -> (r: Vec<u8>)
    requires
        a <= b <= v.len(),
    ensures
        r@ == v@.subrange(a as int, b as int),
{
    let mut out: Vec<u8> = Vec::new();
    let mut i: usize = a;
    proof {
        assert(out@ =~= v@.subrange(a as int, a as int));
    }
    while i < b
        invariant
            a <= i <= b <= v.len(),
            out@ == v@.subrange(a as int, i as int),
        decreases b - i,
    {
        out.push(v[i]);
        proof {
            assert(out@ =~= v@.subrange(a as int, i as int + 1));
        }
        i = i + 1;
    }
    out
}

/// Byte-for-byte equality of two byte vectors.
pub fn bytes_eq(a: &Vec<u8>, b: &Vec<u8>) -> (r: bool)
    ensures
        r == (a@ == b@),
{
    if a.len() != b.len() {
        return false;
    }
    let mut i: usize = 0;
    while i < a.len()
        invariant
            i <= a.len() == b.len(),
            forall|k: int| 0 <= k < i ==> a@[k] == b@[k],
        decreases a.len() - i,
    {
        if a[i] != b[i] {
            return false;
        }
        i = i + 1;
    }
    proof {
        assert(a@ =~= b@);
    }
    true
}

/// `v` with every occurrence of the byte `c` removed, order kept.
pub open spec fn strip_byte(v: Seq<u8>, c: u8) -> Seq<u8>
    decreases v.len(),
{
    if v.len() == 0 {
        v
    } else if v[0] == c {
        strip_byte(v.drop_first(), c)
    } else {
        seq![v[0]] + strip_byte(v.drop_first(), c)
    }
}

/// Removes every occurrence of the byte `c` from `v`.
pub fn strip(v: &Vec<u8>, c: u8) -> (r: Vec<u8>)
    ensures
        r@ == strip_byte(v@, c),
{
    let mut out: Vec<u8> = Vec::new();
    let mut i: usize = 0;
    proof {
        assert(v@.subrange(0, v@.len() as int) =~= v@);
        assert(out@ + strip_byte(v@, c) =~= strip_byte(v@, c));
    }
    while i < v.len()
        invariant
            i <= v.len(),
            out@ + strip_byte(v@.subrange(i as int, v@.len() as int), c) == strip_byte(v@, c),
        decreases v.len() - i,
    {
        let ghost suf = v@.subrange(i as int, v@.len() as int);
        proof {
            assert(suf.len() > 0);
            assert(suf[0] == v@[i as int]);
            assert(suf.drop_first() =~= v@.subrange(i as int + 1, v@.len() as int));
        }
        if v[i] != c {
            let ghost old_out = out@;
            out.push(v[i]);
            proof {
                assert(out@ + strip_byte(suf.drop_first(), c) =~= old_out + strip_byte(suf, c));
            }
        }
        i = i + 1;
    }
    proof {
        assert(v@.subrange(v@.len() as int, v@.len() as int) =~= Seq::<u8>::empty());
        assert(strip_byte(Seq::<u8>::empty(), c) =~= Seq::<u8>::empty());
        assert(out@ + Seq::<u8>::empty() =~= out@);
    }
    out
}

/// `v` with one pair of surrounding double quotes removed, if both are there.
pub open spec fn spec_unquote(v: Seq<u8>) -> Seq<u8> {
    if v.len() >= 2 && v[0] == 34 && v[v.len() - 1] == 34 {
        v.subrange(1, v.len() - 1)
    } else {
        v
    }
}

/// Strips one pair of surrounding double quotes, if both are there.
pub fn unquote(v: &Vec<u8>) -> (r: Vec<u8>)
    ensures
        r@ == spec_unquote(v@),
{
    if v.len() >= 2 && v[0] == 34 && v[v.len() - 1] == 34 {
        subvec(v, 1, v.len() - 1)
    } else {
        let r = subvec(v, 0, v.len());
        proof {
            assert(v@.subrange(0, v@.len() as int) =~= v@);
        }
        r
    }
}

/// The filename suffix `.md` as bytes.
pub open spec fn md_suffix() -> Seq<u8> {
    seq![46u8, 109u8, 100u8]
}

pub open spec fn has_md_suffix(n: Seq<u8>) -> bool {
    n.len() >= 3 && n.subrange(n.len() - 3, n.len() as int) == md_suffix()
}

/// The slug of a filename: the name with a trailing `.md` removed, or the
/// name itself when that suffix is absent.
pub open spec fn slug_of(n: Seq<u8>) -> Seq<u8> {
    if has_md_suffix(n) {
        n.subrange(0, n.len() - 3)
    } else {
        n
    }
}

/// Computes the slug of a filename.
pub fn slug_of_name(n: &Vec<u8>) -> (r: Vec<u8>)
    ensures
        r@ == slug_of(n@),
{
    if n.len() >= 3 && n[n.len() - 3] == 46 && n[n.len() - 2] == 109 && n[n.len() - 1] == 100 {
        proof {
            assert(n@.subrange(n@.len() - 3, n@.len() as int) =~= md_suffix());
        }
        subvec(n, 0, n.len() - 3)
    } else {
        proof {
            if has_md_suffix(n@) {
                assert(n@.subrange(n@.len() - 3, n@.len() as int)[0] == n@[n@.len() - 3]);
                assert(n@.subrange(n@.len() - 3, n@.len() as int)[1] == n@[n@.len() - 2]);
                assert(n@.subrange(n@.len() - 3, n@.len() as int)[2] == n@[n@.len() - 1]);
            }
            assert(n@.subrange(0, n@.len() as int) =~= n@);
        }
        subvec(n, 0, n.len())
    }
}

/// Appends `.md` to a slug to form a filename.
pub fn with_md_suffix(slug: &Vec<u8>) -> (r: Vec<u8>)
    ensures
        r@ == slug@ + md_suffix(),
{
    let mut out = subvec(slug, 0, slug.len());
    proof {
        assert(slug@.subrange(0, slug@.len() as int) =~= slug@);
    }
    out.push(46);
    out.push(109);
    out.push(100);
    proof {
        assert(out@ =~= slug@ + md_suffix());
    }
    out
}

} // verus!
