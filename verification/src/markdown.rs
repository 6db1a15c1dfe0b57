//! The Markdown parser and the HTML renderer, as this library sees them.
//!
//! Both are the work of `comrak`. Nothing here is proved of them: the
//! contracts in this file say what the library takes for granted.

use vstd::prelude::*;

verus! {

/// The nodes of the tree that `comrak::parse_document` makes of `md` under
/// the default options, in tree order (a node before its children, the
/// children from first to last): for a text node its text, for any other
/// node `None`.
pub uninterp spec fn parsed_nodes(md: Seq<char>) -> Seq<Option<Seq<char>>>;

/// What `comrak::format_html` writes, under the default options, for the tree
/// of `md` after its text nodes, in tree order, were given the texts that
/// `texts` holds; `None` where it reports a failure.
pub uninterp spec fn rendered_html(md: Seq<char>, texts: Seq<Option<Seq<char>>>) -> Option<
    Seq<char>,
>;

/// Two sequences of node contents have text at the same places.
pub open spec fn same_shape<A, B>(a: Seq<Option<A>>, b: Seq<Option<B>>) -> bool {
    &&& a.len() == b.len()
    &&& forall|i: int| 0 <= i < a.len() ==> (#[trigger] a[i] is Some <==> b[i] is Some)
}

/// Calls `comrak::parse_document` on `md` with the default options, walks
/// the tree with `descendants` and hands out, for each node, the text that
/// `NodeValue::text` gives. The contract names the result: it is a function
/// of `md` alone.
#[verifier::external_body]
pub(crate) fn parse_texts(md: &str) -> (texts: Vec<Option<String>>)
    ensures
        texts.deep_view() == parsed_nodes(md@),
{
    let arena = comrak::Arena::new();
    let root = comrak::parse_document(&arena, md, &comrak::Options::default());
    root.descendants().map(|node| node.data().value.text().map(|text| text.to_string())).collect()
}

/// Calls `comrak::parse_document` on `md` as `parse_texts` does, stores the
/// texts of `texts` in the text nodes of the tree, node by node in the order
/// of `descendants`, and calls `comrak::format_html` on the tree with the
/// default options. The contract names the result: it is a function of `md`
/// and `texts` alone. The texts must stand where the tree has its text nodes.
#[verifier::external_body]
pub(crate) fn render_texts(md: &str, texts: &Vec<Option<String>>) -> (html: Result<
    String,
    std::fmt::Error,
>)
    requires
        same_shape(texts.deep_view(), parsed_nodes(md@)),
    ensures
        match rendered_html(md@, texts.deep_view()) {
            Some(written) => html matches Ok(out) && out@ == written,
            None => html is Err,
        },
{
    let arena = comrak::Arena::new();
    let root = comrak::parse_document(&arena, md, &comrak::Options::default());
    for (node, text) in root.descendants().zip(texts.iter()) {
        if let (Some(slot), Some(text)) = (node.data_mut().value.text_mut(), text) {
            *slot = text.clone().into();
        }
    }
    let mut html = String::new();
    comrak::format_html(root, &comrak::Options::default(), &mut html)?;
    Ok(html)
}

} // verus!
