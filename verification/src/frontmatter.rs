use vstd::prelude::*;

use crate::dates::{date_text_ok, spec_parse_date, parse_date, Date};
use crate::text::{spec_unquote, strip_byte, subvec, unquote, strip, bytes_eq};
use crate::BlogError;

verus! {

// ---------------------------------------------------------------------------
// The metadata block grammar, stated over byte sequences.
//
// A document begins with a run of key/value lines, each of the shape
// `key: value` (key: letters, digits and underscores; value: the rest of the
// line with surrounding spaces trimmed). The run ends at the first line that
// does not have that shape; the body is everything after it, with leading
// blank lines dropped.
// ---------------------------------------------------------------------------

pub open spec fn is_key_byte(b: u8) -> bool {
    (97 <= b <= 122) || (65 <= b <= 90) || (48 <= b <= 57) || b == 95
}

/// The index of the first newline at or after `i`, or the length of `s`.
pub open spec fn line_end(s: Seq<u8>, i: int) -> int
    decreases s.len() - i,
{
    if i < 0 || i >= s.len() {
        s.len() as int
    } else if s[i] == 10 {
        i
    } else {
        line_end(s, i + 1)
    }
}

pub proof fn lemma_line_end(s: Seq<u8>, i: int)
    requires
        0 <= i <= s.len(),
    ensures
        i <= line_end(s, i) <= s.len(),
    decreases s.len() - i,
{
    if i < s.len() && s[i] != 10 {
        lemma_line_end(s, i + 1);
    }
}

/// The index of the first byte at or after `i` that cannot be part of a key.
pub open spec fn key_end(s: Seq<u8>, i: int) -> int
    decreases s.len() - i,
{
    if i < 0 || i >= s.len() {
        s.len() as int
    } else if !is_key_byte(s[i]) {
        i
    } else {
        key_end(s, i + 1)
    }
}

/// The index of the first non-space byte in `i..e`, or `e`.
pub open spec fn skip_spaces(s: Seq<u8>, i: int, e: int) -> int
    decreases e - i,
{
    if i < 0 || i >= e {
        e
    } else if s[i] != 32 {
        i
    } else {
        skip_spaces(s, i + 1, e)
    }
}

/// The end of `i..e` with trailing spaces dropped.
pub open spec fn trim_end(s: Seq<u8>, i: int, e: int) -> int
    decreases e - i,
{
    if e <= i {
        i
    } else if s[e - 1] == 32 {
        trim_end(s, i, e - 1)
    } else {
        e
    }
}

/// The line starting at `i` has the shape `key: value`.
pub open spec fn is_kv_line(s: Seq<u8>, i: int) -> bool {
    let e = line_end(s, i);
    let k = key_end(s, i);
    i < k && k < e && s[k] == 58
}

pub open spec fn key_of(s: Seq<u8>, i: int) -> Seq<u8> {
    s.subrange(i, key_end(s, i))
}

pub open spec fn raw_value_of(s: Seq<u8>, i: int) -> Seq<u8> {
    let e = line_end(s, i);
    let vs = skip_spaces(s, key_end(s, i) + 1, e);
    let ve = trim_end(s, vs, e);
    s.subrange(vs, ve)
}

/// The start of the line after the one starting at `i`.
pub open spec fn next_line(s: Seq<u8>, i: int) -> int {
    let e = line_end(s, i);
    if e >= s.len() {
        s.len() as int
    } else {
        e + 1
    }
}

/// The key/value pairs of the leading metadata block, in order.
pub open spec fn spec_pairs(s: Seq<u8>, i: int) -> Seq<(Seq<u8>, Seq<u8>)>
    decreases s.len() - i,
    via spec_pairs_dec
{
    if i >= s.len() {
        Seq::empty()
    } else if is_kv_line(s, i) {
        seq![(key_of(s, i), raw_value_of(s, i))] + spec_pairs(s, next_line(s, i))
    } else {
        Seq::empty()
    }
}

#[via_fn]
proof fn spec_pairs_dec(s: Seq<u8>, i: int) {
    if 0 <= i < s.len() {
        lemma_line_end(s, i);
    }
}

/// The index just after the leading metadata block.
pub open spec fn block_end(s: Seq<u8>, i: int) -> int
    decreases s.len() - i,
    via block_end_dec
{
    if i >= s.len() {
        s.len() as int
    } else if is_kv_line(s, i) {
        block_end(s, next_line(s, i))
    } else {
        i
    }
}

#[via_fn]
proof fn block_end_dec(s: Seq<u8>, i: int) {
    if 0 <= i < s.len() {
        lemma_line_end(s, i);
    }
}

/// The index of the first byte at or after `i` that is not a newline.
pub open spec fn skip_newlines(s: Seq<u8>, i: int) -> int
    decreases s.len() - i,
{
    if 0 <= i < s.len() && s[i] == 10 {
        skip_newlines(s, i + 1)
    } else {
        i
    }
}

/// The value of the first pair whose key is `key`.
pub open spec fn assoc(ps: Seq<(Seq<u8>, Seq<u8>)>, key: Seq<u8>) -> Option<Seq<u8>>
    decreases ps.len(),
{
    if ps.len() == 0 {
        None
    } else if ps[0].0 == key {
        Some(ps[0].1)
    } else {
        assoc(ps.drop_first(), key)
    }
}

// ---------------------------------------------------------------------------
// The four required fields and their post-processing.
// ---------------------------------------------------------------------------

/// The bytes of `title`.
pub open spec fn title_key() -> Seq<u8> {
    seq![116u8, 105u8, 116u8, 108u8, 101u8]
}

/// The bytes of `date`.
pub open spec fn date_key() -> Seq<u8> {
    seq![100u8, 97u8, 116u8, 101u8]
}

/// The bytes of `tags`.
pub open spec fn tags_key() -> Seq<u8> {
    seq![116u8, 97u8, 103u8, 115u8]
}

/// The bytes of `blurb`.
pub open spec fn blurb_key() -> Seq<u8> {
    seq![98u8, 108u8, 117u8, 114u8, 98u8]
}

pub open spec fn field_or_empty(s: Seq<u8>, key: Seq<u8>) -> Seq<u8> {
    match assoc(spec_pairs(s, 0), key) {
        Some(v) => v,
        None => Seq::empty(),
    }
}

pub open spec fn has_field(s: Seq<u8>, key: Seq<u8>) -> bool {
    assoc(spec_pairs(s, 0), key) is Some
}

/// The title of a document: its `title` value, unquoted, with every single
/// quote removed.
pub open spec fn spec_title(s: Seq<u8>) -> Seq<u8> {
    strip_byte(spec_unquote(field_or_empty(s, title_key())), 39)
}

/// The blurb of a document: its `blurb` value, unquoted, with every double
/// quote removed.
pub open spec fn spec_blurb(s: Seq<u8>) -> Seq<u8> {
    strip_byte(spec_unquote(field_or_empty(s, blurb_key())), 34)
}

/// The date text of a document: its `date` value, unquoted.
pub open spec fn spec_date_text(s: Seq<u8>) -> Seq<u8> {
    spec_unquote(field_or_empty(s, date_key()))
}

pub open spec fn spec_date_of(s: Seq<u8>) -> Date {
    spec_parse_date(spec_date_text(s))
}

// ---------------------------------------------------------------------------
// The tags value: a bracketed, comma-separated list.
// ---------------------------------------------------------------------------

/// The index of the first comma in `i..e`, or `e`.
pub open spec fn comma_end(s: Seq<u8>, i: int, e: int) -> int
    decreases e - i,
{
    if i < 0 || i >= e {
        e
    } else if s[i] == 44 {
        i
    } else {
        comma_end(s, i + 1, e)
    }
}

pub proof fn lemma_comma_end(s: Seq<u8>, i: int, e: int)
    requires
        0 <= i <= e,
    ensures
        i <= comma_end(s, i, e) <= e,
    decreases e - i,
{
    if i < e && s[i] != 44 {
        lemma_comma_end(s, i + 1, e);
    }
}

/// The bytes of `i..e` with surrounding spaces trimmed.
pub open spec fn trimmed_item(s: Seq<u8>, i: int, e: int) -> Seq<u8> {
    let ts = skip_spaces(s, i, e);
    let te = trim_end(s, ts, e);
    s.subrange(ts, te)
}

/// The comma-separated items of `i..e`, each trimmed of spaces.
pub open spec fn spec_tag_items(s: Seq<u8>, i: int, e: int) -> Seq<Seq<u8>>
    decreases e - i,
    via spec_tag_items_dec
{
    let c = comma_end(s, i, e);
    if c >= e {
        seq![trimmed_item(s, i, e)]
    } else {
        seq![trimmed_item(s, i, c)] + spec_tag_items(s, c + 1, e)
    }
}

#[via_fn]
proof fn spec_tag_items_dec(s: Seq<u8>, i: int, e: int) {
    if 0 <= i <= e {
        lemma_comma_end(s, i, e);
    }
}

/// The tag list of a raw `tags` value: it must be bracketed, and its inside
/// is split at commas, each item trimmed. An inside that is only spaces
/// gives the empty list.
pub open spec fn spec_tags_val(v: Seq<u8>) -> Option<Seq<Seq<u8>>> {
    if v.len() >= 2 && v[0] == 91 && v[v.len() - 1] == 93 {
        if skip_spaces(v, 1, v.len() - 1) >= v.len() - 1 {
            Some(Seq::empty())
        } else {
            Some(spec_tag_items(v, 1, v.len() - 1))
        }
    } else {
        None
    }
}

pub open spec fn spec_tags_ok(s: Seq<u8>) -> bool {
    spec_tags_val(spec_unquote(field_or_empty(s, tags_key()))) is Some
}

pub open spec fn spec_tags_of(s: Seq<u8>) -> Seq<Seq<u8>> {
    match spec_tags_val(spec_unquote(field_or_empty(s, tags_key()))) {
        Some(ts) => ts,
        None => Seq::empty(),
    }
}

// ---------------------------------------------------------------------------
// The extraction contract.
// ---------------------------------------------------------------------------

/// A document is well formed when all four required fields are present, the
/// tags value is a bracketed list, and the date names a valid calendar date.
pub open spec fn fm_ok(s: Seq<u8>) -> bool {
    &&& has_field(s, title_key())
    &&& has_field(s, tags_key())
    &&& has_field(s, date_key())
    &&& has_field(s, blurb_key())
    &&& spec_tags_ok(s)
    &&& date_text_ok(spec_date_text(s))
}

/// The error extraction reports on an ill-formed document: a missing field or
/// an unshaped tags list is an extraction error; only then is a bad date a
/// date error.
pub open spec fn spec_extract_err(s: Seq<u8>) -> BlogError {
    if !(has_field(s, title_key()) && has_field(s, tags_key()) && has_field(s, date_key())
        && has_field(s, blurb_key())) {
        BlogError::ExtractionError
    } else if !spec_tags_ok(s) {
        BlogError::ExtractionError
    } else {
        BlogError::DateParseError
    }
}

/// The body of a document: everything after the metadata block, with leading
/// blank lines dropped.
pub open spec fn spec_body(s: Seq<u8>) -> Seq<u8> {
    s.subrange(skip_newlines(s, block_end(s, 0)), s.len() as int)
}

pub open spec fn bytes_seq_view(ts: Seq<Vec<u8>>) -> Seq<Seq<u8>> {
    ts.map(|i: int, t: Vec<u8>| t@)
}

/// The typed front matter of a document.
pub struct FrontMatter {
    pub title: Vec<u8>,
    pub date: Date,
    pub tags: Vec<Vec<u8>>,
    pub blurb: Vec<u8>,
}

impl FrontMatter {
    /// The front matter extracted from a well-formed document `s`.
    pub open spec fn matches(self, s: Seq<u8>) -> bool {
        &&& self.title@ == spec_title(s)
        &&& self.date == spec_date_of(s)
        &&& bytes_seq_view(self.tags@) == spec_tags_of(s)
        &&& self.blurb@ == spec_blurb(s)
    }
}

// ---------------------------------------------------------------------------
// The executable parser.
// ---------------------------------------------------------------------------

fn find_line_end(s: &Vec<u8>, i: usize) -> (r: usize)
    requires
        i <= s.len(),
    ensures
        r == line_end(s@, i as int),
        i <= r <= s.len(),
    decreases s.len() - i,
{
    if i >= s.len() {
        s.len()
    } else if s[i] == 10 {
        i
    } else {
        find_line_end(s, i + 1)
    }
}

fn find_key_end(s: &Vec<u8>, i: usize) -> (r: usize)
    requires
        i <= s.len(),
    ensures
        r == key_end(s@, i as int),
        i <= r <= s.len(),
    decreases s.len() - i,
{
    if i >= s.len() {
        s.len()
    } else if !((97 <= s[i] && s[i] <= 122) || (65 <= s[i] && s[i] <= 90) || (48 <= s[i] && s[i]
        <= 57) || s[i] == 95) {
        i
    } else {
        find_key_end(s, i + 1)
    }
}

fn find_skip_spaces(s: &Vec<u8>, i: usize, e: usize) -> (r: usize)
    requires
        i <= e <= s.len(),
    ensures
        r == skip_spaces(s@, i as int, e as int),
        i <= r <= e,
    decreases e - i,
{
    if i >= e {
        e
    } else if s[i] != 32 {
        i
    } else {
        find_skip_spaces(s, i + 1, e)
    }
}

fn find_trim_end(s: &Vec<u8>, i: usize, e: usize) -> (r: usize)
    requires
        i <= e <= s.len(),
    ensures
        r == trim_end(s@, i as int, e as int),
        i <= r <= e,
    decreases e - i,
{
    if e <= i {
        i
    } else if s[e - 1] == 32 {
        find_trim_end(s, i, e - 1)
    } else {
        e
    }
}

fn find_comma_end(s: &Vec<u8>, i: usize, e: usize) -> (r: usize)
    requires
        i <= e <= s.len(),
    ensures
        r == comma_end(s@, i as int, e as int),
        i <= r <= e,
    decreases e - i,
{
    if i >= e {
        e
    } else if s[i] == 44 {
        i
    } else {
        find_comma_end(s, i + 1, e)
    }
}

fn find_skip_newlines(s: &Vec<u8>, i: usize) -> (r: usize)
    requires
        i <= s.len(),
    ensures
        r == skip_newlines(s@, i as int),
        i <= r <= s.len(),
    decreases s.len() - i,
{
    if i < s.len() && s[i] == 10 {
        find_skip_newlines(s, i + 1)
    } else {
        i
    }
}

/// Parses the line starting at `i` as a `key: value` line.
fn parse_kv_line(s: &Vec<u8>, i: usize) -> (r: Option<(Vec<u8>, Vec<u8>, usize)>)
    requires
        i <= s.len(),
    ensures
        r is Some <==> is_kv_line(s@, i as int),
        r is Some ==> (r->0).0@ == key_of(s@, i as int),
        r is Some ==> (r->0).1@ == raw_value_of(s@, i as int),
        r is Some ==> (r->0).2 == next_line(s@, i as int) && i < (r->0).2 <= s.len(),
{
    let e = find_line_end(s, i);
    let k = find_key_end(s, i);
    if i < k && k < e && s[k] == 58 {
        let vs = find_skip_spaces(s, k + 1, e);
        let ve = find_trim_end(s, vs, e);
        let key = subvec(s, i, k);
        let val = subvec(s, vs, ve);
        let n = if e >= s.len() {
            s.len()
        } else {
            e + 1
        };
        Some((key, val, n))
    } else {
        None
    }
}

pub open spec fn pairs_view(ps: Seq<(Vec<u8>, Vec<u8>)>) -> Seq<(Seq<u8>, Seq<u8>)> {
    ps.map(|i: int, p: (Vec<u8>, Vec<u8>)| (p.0@, p.1@))
}

/// Parses the leading metadata block; returns its pairs and the index just
/// after it.
fn parse_pairs(s: &Vec<u8>) -> (r: (Vec<(Vec<u8>, Vec<u8>)>, usize))
    ensures
        pairs_view(r.0@) == spec_pairs(s@, 0),
        r.1 == block_end(s@, 0),
        r.1 <= s.len(),
{
    let mut pairs: Vec<(Vec<u8>, Vec<u8>)> = Vec::new();
    let mut i: usize = 0;
    proof {
        assert(pairs_view(pairs@) + spec_pairs(s@, 0) =~= spec_pairs(s@, 0));
    }
    loop
        invariant_except_break
            i <= s.len(),
            pairs_view(pairs@) + spec_pairs(s@, i as int) == spec_pairs(s@, 0),
            block_end(s@, i as int) == block_end(s@, 0),
        ensures
            i <= s.len(),
            pairs_view(pairs@) == spec_pairs(s@, 0),
            i == block_end(s@, 0),
        decreases s.len() - i,
    {
        match parse_kv_line(s, i) {
            None => {
                proof {
                    assert(spec_pairs(s@, i as int) =~= Seq::<(Seq<u8>, Seq<u8>)>::empty());
                    assert(pairs_view(pairs@) + spec_pairs(s@, i as int) =~= pairs_view(pairs@));
                    assert(block_end(s@, i as int) == i);
                }
                break;
            },
            Some((k, v, n)) => {
                let ghost old_pairs = pairs@;
                let ghost ii = i as int;
                pairs.push((k, v));
                proof {
                    assert(pairs_view(pairs@) =~= pairs_view(old_pairs).push((k@, v@)));
                    assert(spec_pairs(s@, ii) =~= seq![(key_of(s@, ii), raw_value_of(s@, ii))]
                        + spec_pairs(s@, next_line(s@, ii)));
                    assert(pairs_view(pairs@) + spec_pairs(s@, n as int) =~= pairs_view(old_pairs)
                        + spec_pairs(s@, ii));
                    assert(block_end(s@, ii) == block_end(s@, n as int));
                }
                i = n;
            },
        }
    }
    (pairs, i)
}

/// Looks a key up among the parsed pairs; the first match wins.
fn assoc_exec(pairs: &Vec<(Vec<u8>, Vec<u8>)>, key: &Vec<u8>) -> (r: Option<Vec<u8>>)
    ensures
        r is Some <==> assoc(pairs_view(pairs@), key@) is Some,
        r is Some ==> Some(r->0@) == assoc(pairs_view(pairs@), key@),
{
    let ghost pv = pairs_view(pairs@);
    let mut j: usize = 0;
    proof {
        assert(pv.subrange(0, pv.len() as int) =~= pv);
    }
    while j < pairs.len()
        invariant
            j <= pairs.len(),
            pv == pairs_view(pairs@),
            pv.len() == pairs.len(),
            assoc(pv.subrange(j as int, pv.len() as int), key@) == assoc(pv, key@),
        decreases pairs.len() - j,
    {
        let ghost suf = pv.subrange(j as int, pv.len() as int);
        proof {
            assert(suf[0] == pv[j as int]);
            assert(suf.drop_first() =~= pv.subrange(j as int + 1, pv.len() as int));
        }
        if bytes_eq(&pairs[j].0, key) {
            let r = subvec(&pairs[j].1, 0, pairs[j].1.len());
            proof {
                let ghost pj = pairs@[j as int].1@;
                assert(pj.subrange(0, pj.len() as int) =~= pj);
            }
            return Some(r);
        }
        j = j + 1;
    }
    proof {
        assert(pv.subrange(pv.len() as int, pv.len() as int) =~= Seq::<(Seq<u8>, Seq<u8>)>::empty());
    }
    None
}

/// Parses a raw `tags` value as a bracketed, comma-separated list.
fn parse_tags(v: &Vec<u8>) -> (r: Option<Vec<Vec<u8>>>)
    ensures
        r is Some <==> spec_tags_val(v@) is Some,
        r is Some ==> Some(bytes_seq_view(r->0@)) == spec_tags_val(v@),
{
    if !(v.len() >= 2 && v[0] == 91 && v[v.len() - 1] == 93) {
        return None;
    }
    let e = v.len() - 1;
    let st = find_skip_spaces(v, 1, e);
    if st >= e {
        let empty: Vec<Vec<u8>> = Vec::new();
        proof {
            assert(bytes_seq_view(empty@) =~= Seq::<Seq<u8>>::empty());
        }
        return Some(empty);
    }
    let mut items: Vec<Vec<u8>> = Vec::new();
    let mut i: usize = 1;
    proof {
        assert(bytes_seq_view(items@) + spec_tag_items(v@, 1, e as int) =~= spec_tag_items(
            v@,
            1,
            e as int,
        ));
    }
    loop
        invariant_except_break
            1 <= i <= e < v.len(),
            bytes_seq_view(items@) + spec_tag_items(v@, i as int, e as int) == spec_tag_items(
                v@,
                1,
                e as int,
            ),
        ensures
            bytes_seq_view(items@) == spec_tag_items(v@, 1, e as int),
        decreases e - i,
    {
        let c = find_comma_end(v, i, e);
        let ts = find_skip_spaces(v, i, c);
        let te = find_trim_end(v, ts, c);
        let item = subvec(v, ts, te);
        let ghost old_items = items@;
        let ghost ii = i as int;
        items.push(item);
        proof {
            assert(bytes_seq_view(items@) =~= bytes_seq_view(old_items).push(item@));
        }
        if c >= e {
            proof {
                assert(spec_tag_items(v@, ii, e as int) =~= seq![trimmed_item(v@, ii, e as int)]);
                assert(item@ == trimmed_item(v@, ii, e as int));
                assert(bytes_seq_view(items@) =~= bytes_seq_view(old_items) + spec_tag_items(
                    v@,
                    ii,
                    e as int,
                ));
            }
            break;
        }
        proof {
            assert(spec_tag_items(v@, ii, e as int) =~= seq![trimmed_item(v@, ii, c as int)]
                + spec_tag_items(v@, c + 1, e as int));
            assert(bytes_seq_view(items@) + spec_tag_items(v@, c + 1, e as int)
                =~= bytes_seq_view(old_items) + spec_tag_items(v@, ii, e as int));
        }
        i = c + 1;
    }
    Some(items)
}

fn title_key_exec() -> (r: Vec<u8>)
    ensures
        r@ == title_key(),
{
    let mut v: Vec<u8> = Vec::new();
    v.push(116);
    v.push(105);
    v.push(116);
    v.push(108);
    v.push(101);
    proof {
        assert(v@ =~= title_key());
    }
    v
}

fn date_key_exec() -> (r: Vec<u8>)
    ensures
        r@ == date_key(),
{
    let mut v: Vec<u8> = Vec::new();
    v.push(100);
    v.push(97);
    v.push(116);
    v.push(101);
    proof {
        assert(v@ =~= date_key());
    }
    v
}

fn tags_key_exec() -> (r: Vec<u8>)
    ensures
        r@ == tags_key(),
{
    let mut v: Vec<u8> = Vec::new();
    v.push(116);
    v.push(97);
    v.push(103);
    v.push(115);
    proof {
        assert(v@ =~= tags_key());
    }
    v
}

fn blurb_key_exec() -> (r: Vec<u8>)
    ensures
        r@ == blurb_key(),
{
    let mut v: Vec<u8> = Vec::new();
    v.push(98);
    v.push(108);
    v.push(117);
    v.push(114);
    v.push(98);
    proof {
        assert(v@ =~= blurb_key());
    }
    v
}

/// Parses the leading metadata block of `text` into its typed front matter
/// and returns it together with the document body that follows the block.
///
/// All four required fields must be present, the tags value must be a
/// bracketed list, and the date must name a valid calendar date; otherwise
/// the matching error is returned and nothing partial is handed out.
pub fn extract(text: &Vec<u8>) -> (r: Result<(FrontMatter, Vec<u8>), BlogError>)
    ensures
        r is Ok <==> fm_ok(text@),
        r is Ok ==> r->Ok_0.0.matches(text@) && r->Ok_0.0.date.well_formed(),
        r is Ok ==> r->Ok_0.1@ == spec_body(text@),
        r is Err ==> r->Err_0 == spec_extract_err(text@),
{
    let (pairs, be) = parse_pairs(text);
    let title_raw = assoc_exec(&pairs, &title_key_exec());
    let tags_raw = assoc_exec(&pairs, &tags_key_exec());
    let date_raw = assoc_exec(&pairs, &date_key_exec());
    let blurb_raw = assoc_exec(&pairs, &blurb_key_exec());
    match (title_raw, tags_raw, date_raw, blurb_raw) {
        (Some(title_v), Some(tags_v), Some(date_v), Some(blurb_v)) => {
            let tags_unq = unquote(&tags_v);
            match parse_tags(&tags_unq) {
                None => Err(BlogError::ExtractionError),
                Some(tags) => {
                    let date_text = unquote(&date_v);
                    match parse_date(&date_text) {
                        None => Err(BlogError::DateParseError),
                        Some(date) => {
                            let title = strip(&unquote(&title_v), 39);
                            let blurb = strip(&unquote(&blurb_v), 34);
                            let body_start = find_skip_newlines(text, be);
                            let body = subvec(text, body_start, text.len());
                            Ok((FrontMatter { title, date, tags, blurb }, body))
                        },
                    }
                },
            }
        },
        _ => Err(BlogError::ExtractionError),
    }
}

} // verus!
