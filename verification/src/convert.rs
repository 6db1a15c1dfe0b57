//! From a template to HTML: the header is read, the body is parsed, the
//! placeholders in its text are replaced, and the tree is rendered.

use vstd::prelude::*;
use crate::errors::{ConvertError, HeaderFault, RegexError, SnippitError, ToHtmlError};
use crate::header::{header_entries, make_snippits, sentinel, split_lines};
use crate::markdown::{parsed_nodes, rendered_html};
use crate::text::{contains, find_char, occurs_in, replace_all, substring, to_chars};
use crate::tree::{
    encode_nodes,
    lemma_encoded_nodes,
    replace_in_nodes,
    snippit_replace,
    DocumentTree,
};
use crate::variables::{Entry, VariableMap};

verus! {

/// What stands on both sides of a name in a placeholder: two dollar signs.
pub open spec fn marker() -> Seq<char> {
    seq!['$', '$']
}

/// The placeholder of the variable named `key`.
pub open spec fn token_of(key: Seq<char>) -> Seq<char> {
    marker() + key + marker()
}

/// `text` after the placeholders of `entries` were replaced, one variable
/// after the other in the order of `entries`: each variable's placeholder is
/// replaced throughout before the next variable is looked at.
pub open spec fn substitute_all(text: Seq<char>, entries: Seq<Entry>) -> Seq<char>
    decreases entries.len(),
{
    if entries.len() == 0 {
        text
    } else {
        replace_all(
            substitute_all(text, entries.drop_last()),
            token_of(entries.last().0),
            entries.last().1,
        )
    }
}

/// `texts` with the placeholders of `entries` replaced in every text.
pub open spec fn substitute_texts(texts: Seq<Option<Seq<char>>>, entries: Seq<Entry>) -> Seq<
    Option<Seq<char>>,
> {
    texts.map_values(
        |text: Option<Seq<char>>|
            match text {
                Some(chars) => Some(substitute_all(chars, entries)),
                None => None,
            },
    )
}

/// The HTML of the Markdown `md` with the placeholders of `entries` replaced
/// in its text nodes; `None` where the renderer fails.
pub open spec fn converted(md: Seq<char>, entries: Seq<Entry>) -> Option<Seq<char>> {
    rendered_html(md, substitute_texts(parsed_nodes(md), entries))
}

/// The placeholder of the variable named `key`.
pub fn placeholder(key: &str) -> (token: String)
    ensures
        token@ == token_of(key@),
{
    proof {
        reveal_strlit("$$");
    }
    assert("$$"@ == marker());
    let mut token = "$$".to_owned();
    token.append(key);
    token.append("$$");
    token
}

/// Replacing one more placeholder in encoded texts is replacing it in the
/// texts and encoding them.
proof fn lemma_replace_encoded(texts: Seq<Option<Seq<char>>>, entries: Seq<Entry>, k: int)
    requires
        0 <= k < entries.len(),
    ensures
        replace_in_nodes(
            encode_nodes(substitute_texts(texts, entries.take(k))),
            token_of(entries[k].0),
            entries[k].1,
        ) == encode_nodes(substitute_texts(texts, entries.take(k + 1))),
{
    broadcast use vstd::utf8::encode_utf8_decode_utf8;

    assert(entries.take(k + 1).drop_last() == entries.take(k));
    assert(entries.take(k + 1).last() == entries[k]);
    assert(replace_in_nodes(
        encode_nodes(substitute_texts(texts, entries.take(k))),
        token_of(entries[k].0),
        entries[k].1,
    ) =~= encode_nodes(substitute_texts(texts, entries.take(k + 1))));
}

/// Renders the Markdown `md` as HTML after the placeholders of `snippets`
/// were replaced in its text. Text alone is changed: a placeholder in code or
/// in a link's address stays as it is.
pub fn snippet_replacer_to_markdown(md: &str, snippets: VariableMap) -> (html: Result<
    String,
    ConvertError,
>)
    ensures
        match converted(md@, snippets@) {
            Some(written) => html matches Ok(out) && out@ == written,
            None => html matches Err(ConvertError::FormatError(_)),
        },
{
    let mut tree = DocumentTree::parse(md);
    let ghost texts = parsed_nodes(md@);
    let ghost entries = snippets@;
    let n = snippets.len();
    let mut k: usize = 0;
    assert(entries.take(0) == Seq::<Entry>::empty());
    assert(substitute_texts(texts, entries.take(0)) == texts);
    while k < n
        invariant
            k <= n,
            n == entries.len(),
            entries == snippets@,
            texts == parsed_nodes(md@),
            tree.markdown() == md@,
            tree@ == encode_nodes(substitute_texts(texts, entries.take(k as int))),
        decreases n - k,
    {
        proof {
            lemma_encoded_nodes(substitute_texts(texts, entries.take(k as int)));
            lemma_replace_encoded(texts, entries, k as int);
        }
        let token = placeholder(snippets.key_at(k).as_str());
        match snippit_replace(&mut tree, token.as_str(), snippets.value_at(k).as_str()) {
            Ok(()) => {},
            Err(e) => {
                return Err(e);
            },
        }
        k += 1;
    }
    proof {
        assert(entries.take(k as int) == entries);
        lemma_encoded_nodes(substitute_texts(texts, entries));
    }
    tree.render()
}

/// The length of the first line of `s`, its line feed included.
pub open spec fn first_line_len(s: Seq<char>) -> int {
    match s.index_of_first('\n') {
        Some(k) => k + 1,
        None => s.len() as int,
    }
}

/// The length of the header of `input`: the header is made of the lines up
/// to the first one that holds the sentinel, that line and its line feed
/// included. `None` where no line holds the sentinel.
pub open spec fn header_len(input: Seq<char>) -> Option<int>
    decreases input.len(),
{
    if input.len() == 0 {
        None
    } else {
        let n = first_line_len(input);
        if occurs_in(input.take(n), sentinel()) {
            Some(n)
        } else {
            proof {
                input.index_of_first_ensures('\n');
            }
            match header_len(input.skip(n)) {
                Some(m) => Some(n + m),
                None => None,
            }
        }
    }
}

/// Parts `input` into its header and its body.
pub fn split_input(input: &str) -> (parts: Option<(String, String)>)
    ensures
        match header_len(input@) {
            Some(n) => parts matches Some((header, body)) && header@ == input@.take(n) && body@
                == input@.skip(n),
            None => parts is None,
        },
{
    proof {
        reveal_strlit("******");
    }
    assert("******"@ == sentinel());
    let chars = to_chars(input);
    let n = chars.len();
    let mut pos: usize = 0;
    assert(input@.skip(0) == input@);
    while pos < n
        invariant
            pos <= n,
            n == input@.len(),
            chars@ == input@,
            "******"@ == sentinel(),
            header_len(input@) == match header_len(input@.skip(pos as int)) {
                Some(m) => Some(pos + m),
                None => None,
            },
        decreases n - pos,
    {
        let ghost rest = input@.skip(pos as int);
        let nl = find_char(&chars, '\n', pos);
        let end = if nl < n {
            nl + 1
        } else {
            n
        };
        assert(first_line_len(rest) == end - pos);
        let line = substring(input, pos, end - pos);
        assert(line@ == rest.take(end - pos));
        if contains(line.as_str(), "******") {
            let header = substring(input, 0, end);
            let body = substring(input, end, n - end);
            assert(header@ == input@.take(end as int));
            assert(body@ == input@.skip(end as int));
            return Some((header, body));
        }
        assert(rest.skip(end - pos) == input@.skip(end as int));
        pos = end;
    }
    None
}

/// The outcome of a conversion, as the template alone decides it: the HTML
/// written, or the fault of the header, or a failure of the renderer.
pub enum Outcome {
    Html(Seq<char>),
    Header(HeaderFault),
    Renderer,
}

/// What converting the template `input` comes to. The header is read up to
/// its sentinel line and defines the variables; what follows that line is
/// Markdown, rendered with the placeholders of those variables replaced.
pub open spec fn outcome_of(input: Seq<char>) -> Outcome {
    match header_len(input) {
        None => Outcome::Header(HeaderFault::MissingSentinel),
        Some(n) => match header_entries(split_lines(input.take(n))) {
            Err(fault) => Outcome::Header(fault),
            Ok(entries) => match converted(input.skip(n), entries) {
                Some(written) => Outcome::Html(written),
                None => Outcome::Renderer,
            },
        },
    }
}

/// Whether `result` reports `outcome`.
pub open spec fn reports(result: Result<String, ToHtmlError>, outcome: Outcome) -> bool {
    match outcome {
        Outcome::Html(written) => result matches Ok(out) && out@ == written,
        Outcome::Header(fault) => result matches Err(
            ToHtmlError::Snippet(SnippitError::Regex(e)),
        ) && e.fault == fault,
        Outcome::Renderer => result matches Err(ToHtmlError::Convert(ConvertError::FormatError(_))),
    }
}

/// Converts the template `input` to HTML.
pub fn markdown_to_html(input: &str) -> (html: Result<String, ToHtmlError>)
    ensures
        reports(html, outcome_of(input@)),
{
    let (header, body) = match split_input(input) {
        Some(parts) => parts,
        None => {
            let e = RegexError { fault: HeaderFault::MissingSentinel };
            return Err(ToHtmlError::Snippet(SnippitError::Regex(e)));
        },
    };
    match make_snippits(header.as_str()) {
        Err(error) => Err(ToHtmlError::Snippet(error)),
        Ok(x) => match snippet_replacer_to_markdown(body.as_str(), x) {
            Err(error) => Err(ToHtmlError::Convert(error)),
            Ok(y) => Ok(y),
        },
    }
}

} // verus!
