//! The tree of a parsed document, as far as substitution reads and writes it.

use vstd::prelude::*;
use vstd::slice::slice_to_vec;
use vstd::utf8::{decode_utf8, encode_utf8, valid_utf8};
use crate::errors::ConvertError;
use crate::markdown::{parse_texts, parsed_nodes, render_texts, rendered_html, same_shape};
use crate::text::{replace, replace_all};

verus! {

/// `String::from_utf8` gives the string that the bytes encode where they are
/// UTF-8, and an error where they are not.
pub assume_specification[ String::from_utf8 ](vec: Vec<u8>) -> (decoded: Result<
    String,
    std::string::FromUtf8Error,
>)
    ensures
        match decoded {
            Ok(text) => valid_utf8(vec@) && text@ == decode_utf8(vec@),
            Err(_) => !valid_utf8(vec@),
        },
;

/// What a node holds.
#[derive(Debug, Clone, PartialEq, Eq)]
pub enum NodeContent {
    /// Plain text, as bytes that are read as UTF-8.
    Text(Vec<u8>),
    /// Anything else: a paragraph, a heading, emphasis, a link, code.
    Markup,
}

impl View for NodeContent {
    type V = Option<Seq<u8>>;

    open spec fn view(&self) -> Option<Seq<u8>> {
        match self {
            NodeContent::Text(bytes) => Some(bytes@),
            NodeContent::Markup => None,
        }
    }
}

/// What each of `nodes` holds.
pub open spec fn nodes_view(nodes: Seq<NodeContent>) -> Seq<Option<Seq<u8>>> {
    nodes.map_values(|node: NodeContent| node@)
}

/// `texts` with every text encoded as UTF-8.
pub open spec fn encode_nodes(texts: Seq<Option<Seq<char>>>) -> Seq<Option<Seq<u8>>> {
    texts.map_values(
        |text: Option<Seq<char>>|
            match text {
                Some(chars) => Some(encode_utf8(chars)),
                None => None,
            },
    )
}

/// `nodes` with every text read as UTF-8.
pub open spec fn decode_nodes(nodes: Seq<Option<Seq<u8>>>) -> Seq<Option<Seq<char>>> {
    nodes.map_values(
        |node: Option<Seq<u8>>|
            match node {
                Some(bytes) => Some(decode_utf8(bytes)),
                None => None,
            },
    )
}

/// Every text of `nodes` is UTF-8.
pub open spec fn all_decodable(nodes: Seq<Option<Seq<u8>>>) -> bool {
    forall|i: int| 0 <= i < nodes.len() ==> (#[trigger] nodes[i] matches Some(bytes) ==> valid_utf8(bytes))
}

/// `nodes` with `pat` replaced by `to` throughout every text. Nodes that are
/// not text stay as they are.
pub open spec fn replace_in_nodes(
    nodes: Seq<Option<Seq<u8>>>,
    pat: Seq<char>,
    to: Seq<char>,
) -> Seq<Option<Seq<u8>>> {
    nodes.map_values(
        |node: Option<Seq<u8>>|
            match node {
                Some(bytes) => Some(encode_utf8(replace_all(decode_utf8(bytes), pat, to))),
                None => None,
            },
    )
}

/// The nodes of a parsed Markdown document in tree order: a node stands
/// before its children, and the children stand from first to last. The
/// texts may be changed; which nodes are text is fixed by the Markdown.
pub struct DocumentTree {
    source: String,
    nodes: Vec<NodeContent>,
}

impl View for DocumentTree {
    type V = Seq<Option<Seq<u8>>>;

    closed spec fn view(&self) -> Seq<Option<Seq<u8>>> {
        nodes_view(self.nodes@)
    }
}

/// The string that `bytes` encode.
fn decode(bytes: &Vec<u8>) -> (decoded: Result<String, std::string::FromUtf8Error>)
    ensures
        match decoded {
            Ok(text) => valid_utf8(bytes@) && text@ == decode_utf8(bytes@),
            Err(_) => !valid_utf8(bytes@),
        },
{
    String::from_utf8(slice_to_vec(bytes.as_slice()))
}

impl DocumentTree {
    /// The Markdown that the tree was parsed from.
    pub closed spec fn markdown(&self) -> Seq<char> {
        self.source@
    }

    #[verifier::type_invariant]
    spec fn well_formed(&self) -> bool {
        same_shape(self@, parsed_nodes(self.source@))
    }

    /// Parses `md`.
    pub fn parse(md: &str) -> (tree: DocumentTree)
        ensures
            tree.markdown() == md@,
            tree@ == encode_nodes(parsed_nodes(md@)),
    {
        let texts = parse_texts(md);
        let mut nodes: Vec<NodeContent> = Vec::new();
        let mut i: usize = 0;
        while i < texts.len()
            invariant
                i <= texts@.len(),
                nodes@.len() == i,
                texts.deep_view() == parsed_nodes(md@),
                nodes_view(nodes@) == encode_nodes(parsed_nodes(md@).take(i as int)),
            decreases texts@.len() - i,
        {
            let ghost before = nodes_view(nodes@);
            assert(texts.deep_view()[i as int] == texts@[i as int].deep_view());
            match &texts[i] {
                Some(text) => {
                    nodes.push(NodeContent::Text(text.as_str().as_bytes_vec()));
                },
                None => {
                    nodes.push(NodeContent::Markup);
                },
            }
            assert(parsed_nodes(md@).take(i + 1) == parsed_nodes(md@).take(i as int).push(
                parsed_nodes(md@)[i as int],
            ));
            assert(nodes_view(nodes@) == before.push(nodes@[i as int]@));
            i += 1;
        }
        assert(parsed_nodes(md@).take(i as int) == parsed_nodes(md@));
        DocumentTree { source: md.to_owned(), nodes }
    }

    /// The tree of `md` with `nodes` in place of its own, where `nodes` have
    /// text at the places at which the tree of `md` has it.
    pub fn from_nodes(md: &str, nodes: Vec<NodeContent>) -> (tree: Option<DocumentTree>)
        ensures
            match tree {
                Some(built) => {
                    &&& same_shape(nodes_view(nodes@), parsed_nodes(md@))
                    &&& built.markdown() == md@
                    &&& built@ == nodes_view(nodes@)
                },
                None => !same_shape(nodes_view(nodes@), parsed_nodes(md@)),
            },
    {
        let texts = parse_texts(md);
        if nodes.len() != texts.len() {
            return None;
        }
        let mut i: usize = 0;
        while i < nodes.len()
            invariant
                i <= nodes@.len(),
                nodes@.len() == texts@.len(),
                texts.deep_view() == parsed_nodes(md@),
                forall|j: int|
                    0 <= j < i ==> (#[trigger] nodes_view(nodes@)[j] is Some <==> parsed_nodes(
                        md@,
                    )[j] is Some),
            decreases nodes@.len() - i,
        {
            assert(texts.deep_view()[i as int] == texts@[i as int].deep_view());
            let is_text = match &nodes[i] {
                NodeContent::Text(_) => true,
                NodeContent::Markup => false,
            };
            if is_text != texts[i].is_some() {
                assert(nodes_view(nodes@)[i as int] is Some != parsed_nodes(md@)[i as int] is Some);
                return None;
            }
            i += 1;
        }
        Some(DocumentTree { source: md.to_owned(), nodes })
    }

    /// How many nodes the tree has.
    pub fn len(&self) -> (n: usize)
        ensures
            n == self@.len(),
    {
        self.nodes.len()
    }

    /// The Markdown that the tree was parsed from.
    pub fn source(&self) -> (md: &str)
        ensures
            md@ == self.markdown(),
    {
        self.source.as_str()
    }

    /// The bytes of the node at index `i`, where there is such a node and it
    /// is text.
    pub fn text(&self, i: usize) -> (bytes: Option<&Vec<u8>>)
        ensures
            match bytes {
                Some(found) => i < self@.len() && self@[i as int] == Some(found@),
                None => i >= self@.len() || self@[i as int] is None,
            },
    {
        if i >= self.nodes.len() {
            return None;
        }
        match &self.nodes[i] {
            NodeContent::Text(bytes) => Some(bytes),
            NodeContent::Markup => None,
        }
    }

    /// Renders the tree as HTML. Every text is read as UTF-8 first: the
    /// first one that is not UTF-8 is reported, and nothing is rendered.
    pub fn render(&self) -> (html: Result<String, ConvertError>)
        ensures
            if all_decodable(self@) {
                match rendered_html(self.markdown(), decode_nodes(self@)) {
                    Some(written) => html matches Ok(out) && out@ == written,
                    None => html matches Err(ConvertError::FormatError(_)),
                }
            } else {
                html matches Err(ConvertError::FromUtfError(_))
            },
    {
        proof {
            use_type_invariant(self);
        }
        let mut texts: Vec<Option<String>> = Vec::new();
        let mut i: usize = 0;
        while i < self.nodes.len()
            invariant
                i <= self.nodes@.len(),
                texts@.len() == i,
                self@ == nodes_view(self.nodes@),
                all_decodable(self@.take(i as int)),
                texts.deep_view() == decode_nodes(self@.take(i as int)),
            decreases self.nodes@.len() - i,
        {
            let ghost before = texts.deep_view();
            assert(self@.take(i + 1) == self@.take(i as int).push(self@[i as int]));
            match &self.nodes[i] {
                NodeContent::Text(bytes) => match decode(bytes) {
                    Ok(text) => {
                        texts.push(Some(text));
                    },
                    Err(e) => {
                        assert(self@[i as int] == Some(bytes@));
                        return Err(ConvertError::FromUtfError(e));
                    },
                },
                NodeContent::Markup => {
                    texts.push(None);
                },
            }
            assert(texts.deep_view() == before.push(texts@[i as int].deep_view()));
            i += 1;
        }
        assert(self@.take(i as int) == self@);
        match render_texts(self.source.as_str(), &texts) {
            Ok(out) => Ok(out),
            Err(e) => Err(ConvertError::FormatError(e)),
        }
    }
}

/// Encoded texts are UTF-8, and reading them gives the texts back.
pub proof fn lemma_encoded_nodes(texts: Seq<Option<Seq<char>>>)
    ensures
        all_decodable(encode_nodes(texts)),
        decode_nodes(encode_nodes(texts)) == texts,
        same_shape(encode_nodes(texts), texts),
{
    broadcast use vstd::utf8::encode_utf8_valid_utf8, vstd::utf8::encode_utf8_decode_utf8;

    assert(decode_nodes(encode_nodes(texts)) =~= texts);
}

/// Replaces `str_search` by `string_replace` throughout every text node of
/// `tree`, from left to right, without looking again at what was put in.
/// Nodes that are not text are left alone. Where a text is not UTF-8, the
/// tree is left as it was and the error says so.
pub fn snippit_replace(tree: &mut DocumentTree, str_search: &str, string_replace: &str) -> (done:
    Result<(), ConvertError>)
    ensures
        final(tree).markdown() == old(tree).markdown(),
        if all_decodable(old(tree)@) {
            &&& done is Ok
            &&& final(tree)@ == replace_in_nodes(old(tree)@, str_search@, string_replace@)
        } else {
            &&& done matches Err(ConvertError::FromUtfError(_))
            &&& final(tree)@ == old(tree)@
        },
{
    proof {
        use_type_invariant(&*tree);
    }
    let mut nodes: Vec<NodeContent> = Vec::new();
    let mut i: usize = 0;
    while i < tree.nodes.len()
        invariant
            i <= tree.nodes@.len(),
            nodes@.len() == i,
            tree@ == nodes_view(tree.nodes@),
            all_decodable(tree@.take(i as int)),
            nodes_view(nodes@) == replace_in_nodes(tree@.take(i as int), str_search@, string_replace@),
        decreases tree.nodes@.len() - i,
    {
        let ghost before = nodes_view(nodes@);
        assert(tree@.take(i + 1) == tree@.take(i as int).push(tree@[i as int]));
        match &tree.nodes[i] {
            NodeContent::Text(bytes) => match decode(bytes) {
                Ok(text) => {
                    let replaced = replace(text.as_str(), str_search, string_replace);
                    nodes.push(NodeContent::Text(replaced.as_str().as_bytes_vec()));
                },
                Err(e) => {
                    assert(tree@[i as int] == Some(bytes@));
                    return Err(ConvertError::FromUtfError(e));
                },
            },
            NodeContent::Markup => {
                nodes.push(NodeContent::Markup);
            },
        }
        assert(nodes_view(nodes@) == before.push(nodes@[i as int]@));
        i += 1;
    }
    assert(tree@.take(i as int) == tree@);
    std::mem::swap(&mut tree.nodes, &mut nodes);
    Ok(())
}

} // verus!
