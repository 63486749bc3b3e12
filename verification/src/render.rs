use vstd::prelude::*;

verus! {

/// The HTML that the markdown renderer produces for a byte text, under the
/// fixed extension configuration. The result depends on the input bytes
/// alone.
pub uninterp spec fn html_of(md: Seq<u8>) -> Seq<u8>;

/// Relies on comrak::markdown_to_html, called with the fixed configuration:
/// strikethrough, tables, autolinks, task lists and header-id anchors
/// (prefix `#`) on, raw HTML passed through unsanitized so that embedded
/// snippets keep working. The output is a function of the input text alone.
#[verifier::external_body]
pub(crate) fn render_markdown(md: &Vec<u8>) -> (r: Vec<u8>)
    ensures
        r@ == html_of(md@),
{
    let mut opts = comrak::ComrakOptions::default();
    opts.extension.strikethrough = true;
    opts.extension.table = true;
    opts.extension.autolink = true;
    opts.extension.tasklist = true;
    opts.extension.header_ids = Some("#".to_string());
    opts.render.unsafe_ = true;
    let text = String::from_utf8_lossy(md).into_owned();
    comrak::markdown_to_html(&text, &opts).into_bytes()
}

/// Rendering is a pure function of the text: the same markdown always gives
/// the same HTML, with no hidden state between calls.
pub proof fn lemma_render_deterministic(a: Seq<u8>, b: Seq<u8>)
    requires
        a == b,
    ensures
        html_of(a) == html_of(b),
{
}

} // verus!
