use vstd::prelude::*;

use crate::dates::{date_le, date_ge, Date};
use crate::frontmatter::{
    assoc, bytes_seq_view, extract, fm_ok, spec_blurb, spec_body, spec_date_of, spec_extract_err,
    spec_tags_of, spec_title,
};
use crate::render::{html_of, render_markdown};
use crate::store::ContentStore;
use crate::text::{md_suffix, slug_of, slug_of_name, with_md_suffix};
use crate::BlogError;

verus! {

broadcast use vstd::seq_lib::group_to_multiset_ensures, vstd::multiset::group_multiset_axioms;

/// One row of the blog listing page.
pub struct PostSummary {
    pub date: Date,
    pub title: Vec<u8>,
    pub slug: Vec<u8>,
    pub blurb_html: Vec<u8>,
    pub tags: Vec<Vec<u8>>,
}

/// A single post, resolved for its detail page.
pub struct PostDetail {
    pub title: Vec<u8>,
    pub body_html: Vec<u8>,
}

/// The mathematical content of a summary.
pub open spec fn summary_view(p: PostSummary) -> (Date, Seq<u8>, Seq<u8>, Seq<u8>, Seq<Seq<u8>>) {
    (p.date, p.title@, p.slug@, p.blurb_html@, bytes_seq_view(p.tags@))
}

pub open spec fn views(s: Seq<PostSummary>) -> Seq<(Date, Seq<u8>, Seq<u8>, Seq<u8>, Seq<Seq<u8>>)> {
    s.map(|i: int, p: PostSummary| summary_view(p))
}

/// The summary a document owes the listing: its date, title, slug, rendered
/// blurb and tags.
pub open spec fn spec_summary_of(name: Seq<u8>, data: Seq<u8>) -> (
    Date,
    Seq<u8>,
    Seq<u8>,
    Seq<u8>,
    Seq<Seq<u8>>,
) {
    (spec_date_of(data), spec_title(data), slug_of(name), html_of(spec_blurb(data)), spec_tags_of(
        data,
    ))
}

pub open spec fn summaries_of(es: Seq<(Seq<u8>, Seq<u8>)>) -> Seq<
    (Date, Seq<u8>, Seq<u8>, Seq<u8>, Seq<Seq<u8>>),
> {
    es.map(|i: int, e: (Seq<u8>, Seq<u8>)| spec_summary_of(e.0, e.1))
}

/// Dates descend along the listing: each post is no older than the next.
pub open spec fn sorted_desc(s: Seq<PostSummary>) -> bool {
    forall|i: int| 0 <= i && i + 1 < s.len() ==> date_le(#[trigger] s[i + 1].date, s[i].date)
}

pub open spec fn all_ok(es: Seq<(Seq<u8>, Seq<u8>)>) -> bool {
    forall|i: int| 0 <= i < es.len() ==> fm_ok(es[i].1)
}

/// The error of the first document that fails extraction, in store order.
pub open spec fn first_err(es: Seq<(Seq<u8>, Seq<u8>)>) -> BlogError
    decreases es.len(),
{
    if es.len() == 0 {
        BlogError::ExtractionError
    } else if !fm_ok(es[0].1) {
        spec_extract_err(es[0].1)
    } else {
        first_err(es.drop_first())
    }
}

proof fn lemma_first_err(es: Seq<(Seq<u8>, Seq<u8>)>, i: int)
    requires
        0 <= i < es.len(),
        forall|k: int| 0 <= k < i ==> fm_ok(es[k].1),
        !fm_ok(es[i].1),
    ensures
        first_err(es) == spec_extract_err(es[i].1),
    decreases i,
{
    if i > 0 {
        assert(fm_ok(es[0].1));
        assert(forall|k: int| 0 <= k < i - 1 ==> es.drop_first()[k] == es[k + 1]);
        assert(es.drop_first()[i - 1] == es[i]);
        lemma_first_err(es.drop_first(), i - 1);
    }
}

/// The position of a maximal date in a non-empty list.
fn max_index(v: &Vec<PostSummary>) -> (m: usize)
    requires
        v@.len() > 0,
    ensures
        m < v@.len(),
        forall|j: int| 0 <= j < v@.len() ==> date_le(v@[j].date, v@[m as int].date),
{
    let mut m: usize = 0;
    let mut i: usize = 1;
    while i < v.len()
        invariant
            m < i <= v@.len(),
            forall|j: int| 0 <= j < i ==> date_le(v@[j].date, v@[m as int].date),
        decreases v@.len() - i,
    {
        if date_ge(&v[i].date, &v[m].date) {
            let ghost old_m = m as int;
            m = i;
            proof {
                assert forall|j: int| 0 <= j < i + 1 implies date_le(
                    v@[j].date,
                    v@[m as int].date,
                ) by {
                    if j < i {
                        assert(date_le(v@[j].date, v@[old_m].date));
                    }
                }
            }
        }
        i = i + 1;
    }
    m
}

/// Sorts summaries by date, most recent first, keeping exactly the given
/// summaries (as a multiset; equal dates land in no particular order).
fn sort_by_date(v: Vec<PostSummary>) -> (r: Vec<PostSummary>)
    ensures
        sorted_desc(r@),
        views(r@).to_multiset() == views(v@).to_multiset(),
{
    let ghost orig = v@;
    let mut rest = v;
    let mut out: Vec<PostSummary> = Vec::new();
    proof {
        assert(views(out@) =~= Seq::<(Date, Seq<u8>, Seq<u8>, Seq<u8>, Seq<Seq<u8>>)>::empty());
        assert(views(out@).to_multiset().add(views(rest@).to_multiset()) =~= views(
            orig,
        ).to_multiset());
    }
    while rest.len() > 0
        invariant
            sorted_desc(out@),
            forall|a: int, b: int|
                0 <= a < out@.len() && 0 <= b < rest@.len() ==> date_le(
                    rest@[b].date,
                    out@[a].date,
                ),
            views(out@).to_multiset().add(views(rest@).to_multiset()) == views(orig).to_multiset(),
        decreases rest.len(),
    {
        let m = max_index(&rest);
        let ghost old_rest = rest@;
        let ghost old_out = out@;
        let x = rest.remove(m);
        let ghost xv = summary_view(x);
        out.push(x);
        proof {
            assert(old_rest[m as int] == out@[out@.len() - 1]);
            assert(views(old_rest)[m as int] == xv);
            assert(views(old_rest).contains(xv));
            assert(views(rest@) =~= views(old_rest).remove(m as int));
            assert(views(out@) =~= views(old_out).push(xv));
            assert(views(out@).to_multiset().add(views(rest@).to_multiset()) =~= views(
                orig,
            ).to_multiset());
            assert forall|i: int| 0 <= i && i + 1 < out@.len() implies date_le(
                #[trigger] out@[i + 1].date,
                out@[i].date,
            ) by {
                if i + 2 < out@.len() {
                    assert(date_le(old_out[i + 1].date, old_out[i].date));
                } else {
                    assert(date_le(old_rest[m as int].date, old_out[i].date));
                }
            }
            assert forall|a: int, b: int|
                0 <= a < out@.len() && 0 <= b < rest@.len() implies date_le(
                rest@[b].date,
                out@[a].date,
            ) by {
                let bb = if b < m { b } else { b + 1 };
                assert(rest@[b] == old_rest[bb]);
                assert(date_le(old_rest[bb].date, old_rest[m as int].date));
                if a < out@.len() - 1 {
                    assert(date_le(old_rest[bb].date, old_out[a].date));
                }
            }
        }
    }
    proof {
        assert(views(rest@) =~= Seq::<(Date, Seq<u8>, Seq<u8>, Seq<u8>, Seq<Seq<u8>>)>::empty());
        assert(views(out@).to_multiset() =~= views(orig).to_multiset());
    }
    out
}

/// Builds the blog listing: every document is extracted, its blurb rendered,
/// and the summaries are sorted by date, most recent first. One malformed
/// document fails the whole listing with its error.
pub fn build_index(store: &ContentStore) -> (r: Result<Vec<PostSummary>, BlogError>)
    ensures
        r is Ok <==> all_ok(store.entries()),
        r is Ok ==> sorted_desc(r->Ok_0@),
        r is Ok ==> views(r->Ok_0@).to_multiset() == summaries_of(store.entries()).to_multiset(),
        r is Err ==> r->Err_0 == first_err(store.entries()),
{
    let n = store.doc_count();
    let mut out: Vec<PostSummary> = Vec::new();
    let mut i: usize = 0;
    proof {
        assert(views(out@) =~= summaries_of(store.entries().subrange(0, 0)));
    }
    while i < n
        invariant
            i <= n == store.entries().len(),
            views(out@) == summaries_of(store.entries().subrange(0, i as int)),
            forall|k: int| 0 <= k < i ==> fm_ok(store.entries()[k].1),
        decreases n - i,
    {
        let (name, data) = store.doc_at(i);
        match extract(data) {
            Result::Err(e) => {
                proof {
                    lemma_first_err(store.entries(), i as int);
                }
                return Result::Err(e);
            },
            Result::Ok((fm, _body)) => {
                let blurb_html = render_markdown(&fm.blurb);
                let slug = slug_of_name(name);
                let p = PostSummary {
                    date: fm.date,
                    title: fm.title,
                    slug,
                    blurb_html,
                    tags: fm.tags,
                };
                let ghost pv = summary_view(p);
                let ghost old_out = out@;
                out.push(p);
                proof {
                    let ghost es = store.entries();
                    assert(pv == spec_summary_of(es[i as int].0, es[i as int].1));
                    assert(views(out@) =~= views(old_out).push(pv));
                    assert(es.subrange(0, i as int) =~= es.subrange(0, i as int + 1).drop_last());
                    assert(summaries_of(es.subrange(0, i as int + 1)) =~= summaries_of(
                        es.subrange(0, i as int),
                    ).push(pv));
                }
            },
        }
        i = i + 1;
    }
    proof {
        assert(store.entries().subrange(0, n as int) =~= store.entries());
    }
    let sorted = sort_by_date(out);
    Result::Ok(sorted)
}

/// Resolves a slug to its post: the document named `slug + ".md"` is looked
/// up, extracted and its body rendered. An absent slug is `NotFound`.
pub fn resolve(store: &ContentStore, slug: &Vec<u8>) -> (r: Result<PostDetail, BlogError>)
    ensures
        assoc(store.entries(), slug@ + md_suffix()) is None ==> r is Err && r->Err_0
            == BlogError::NotFound,
        forall|data: Seq<u8>|
            assoc(store.entries(), slug@ + md_suffix()) == Some(data) ==> {
                &&& (r is Ok <==> fm_ok(data))
                &&& (r is Ok ==> r->Ok_0.title@ == spec_title(data))
                &&& (r is Ok ==> r->Ok_0.body_html@ == html_of(spec_body(data)))
                &&& (r is Err ==> r->Err_0 == spec_extract_err(data))
            },
{
    let filename = with_md_suffix(slug);
    match store.get(&filename) {
        Option::None => Result::Err(BlogError::NotFound),
        Option::Some(data) => {
            match extract(data) {
                Result::Err(e) => Result::Err(e),
                Result::Ok((fm, body)) => {
                    let body_html = render_markdown(&body);
                    Result::Ok(PostDetail { title: fm.title, body_html })
                },
            }
        },
    }
}

} // verus!

