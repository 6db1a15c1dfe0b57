//! What holds of the library as a whole.

use vstd::prelude::*;
use crate::convert::{converted, substitute_all, substitute_texts, token_of};
use crate::errors::SnippitError;
use crate::header::{header_entries, reads_as, split_lines};
use crate::markdown::{parsed_nodes, rendered_html, same_shape};
use crate::text::{occurs_at, occurs_in, replace_all};
use crate::tree::replace_in_nodes;
use crate::variables::{Entry, VariableMap};

verus! {

/// Reading a header is a function of the header: two readings of the same
/// header give the same variables with the same texts in the same order, or
/// fail with the same fault.
pub proof fn lemma_header_read_twice(
    header: Seq<char>,
    first: Result<VariableMap, SnippitError>,
    second: Result<VariableMap, SnippitError>,
)
    requires
        reads_as(first, header_entries(split_lines(header))),
        reads_as(second, header_entries(split_lines(header))),
    ensures
        match first {
            Ok(map) => second matches Ok(again) && again@ == map@,
            Err(SnippitError::Regex(e)) => second matches Err(SnippitError::Regex(f)) && f.fault
                == e.fault,
            Err(SnippitError::IoError(_)) => false,
        },
{
}

/// A text in which `pat` stands nowhere is left as it is when `pat` is
/// replaced.
pub proof fn lemma_replace_absent(text: Seq<char>, pat: Seq<char>, to: Seq<char>)
    requires
        !occurs_in(text, pat),
    ensures
        replace_all(text, pat, to) == text,
    decreases text.len(),
{
    if pat.len() == 0 {
        assert(text.subrange(0, 0) == pat);
        assert(occurs_at(text, pat, 0));
    } else if text.len() >= pat.len() {
        assert(!occurs_at(text, pat, 0));
        let rest = text.skip(1);
        assert forall|i: int| !occurs_at(rest, pat, i) by {
            if occurs_at(rest, pat, i) {
                assert(rest.subrange(i, i + pat.len()) == text.subrange(i + 1, i + 1 + pat.len()));
                assert(occurs_at(text, pat, i + 1));
            }
        }
        lemma_replace_absent(rest, pat, to);
        assert(text.take(1) + rest == text);
    }
}

/// A variable whose placeholder stands nowhere in the text, as the variables
/// before it left it, changes nothing, wherever among the variables it
/// stands: the text comes out as it does without that variable.
pub proof fn lemma_unused_variable(
    text: Seq<char>,
    before: Seq<Entry>,
    key: Seq<char>,
    value: Seq<char>,
    after: Seq<Entry>,
)
    requires
        !occurs_in(substitute_all(text, before), token_of(key)),
    ensures
        substitute_all(text, before.push((key, value)) + after) == substitute_all(
            text,
            before + after,
        ),
    decreases after.len(),
{
    let with = before.push((key, value)) + after;
    let without = before + after;
    if after.len() == 0 {
        assert(with == before.push((key, value)));
        assert(without == before);
        assert(with.drop_last() == before);
        lemma_replace_absent(substitute_all(text, before), token_of(key), value);
    } else {
        assert(with.drop_last() == before.push((key, value)) + after.drop_last());
        assert(without.drop_last() == before + after.drop_last());
        assert(with.last() == after.last());
        assert(without.last() == after.last());
        lemma_unused_variable(text, before, key, value, after.drop_last());
    }
}

/// A text that holds the placeholder of none of the variables is left as it
/// is: what looks like a placeholder but names no variable stays literal.
pub proof fn lemma_no_placeholder(text: Seq<char>, entries: Seq<Entry>)
    requires
        forall|k: int| 0 <= k < entries.len() ==> !occurs_in(text, token_of(#[trigger] entries[k].0)),
    ensures
        substitute_all(text, entries) == text,
    decreases entries.len(),
{
    if entries.len() > 0 {
        let before = entries.drop_last();
        assert forall|k: int| 0 <= k < before.len() implies !occurs_in(
            text,
            token_of(#[trigger] before[k].0),
        ) by {
            assert(before[k] == entries[k]);
        }
        lemma_no_placeholder(text, before);
        assert(!occurs_in(text, token_of(entries[entries.len() - 1].0)));
        lemma_replace_absent(text, token_of(entries.last().0), entries.last().1);
    }
}

/// Replacing changes text alone: the nodes stay as many as they were, text
/// stays text, and a node that is not text stays as it is.
pub proof fn lemma_markup_kept(nodes: Seq<Option<Seq<u8>>>, pat: Seq<char>, to: Seq<char>)
    ensures
        same_shape(replace_in_nodes(nodes, pat, to), nodes),
        forall|i: int|
            0 <= i < nodes.len() && nodes[i] is None ==> #[trigger] replace_in_nodes(
                nodes,
                pat,
                to,
            )[i] is None,
{
}

/// No text node of the Markdown `md` holds the placeholder of a variable of
/// `entries`.
pub open spec fn nothing_to_replace(md: Seq<char>, entries: Seq<Entry>) -> bool {
    forall|i: int, k: int|
        0 <= i < parsed_nodes(md).len() && 0 <= k < entries.len() ==> (#[trigger] parsed_nodes(
            md,
        )[i] matches Some(text) ==> !occurs_in(text, token_of(#[trigger] entries[k].0)))
}

/// Where no text node holds the placeholder of a variable, and so where
/// there are no variables at all, the HTML is that of the Markdown rendered
/// as it was parsed, with no substitution in between.
pub proof fn lemma_round_trip(md: Seq<char>, entries: Seq<Entry>)
    requires
        nothing_to_replace(md, entries),
    ensures
        converted(md, entries) == rendered_html(md, parsed_nodes(md)),
{
    let texts = parsed_nodes(md);
    assert forall|i: int| 0 <= i < texts.len() implies #[trigger] substitute_texts(
        texts,
        entries,
    )[i] == texts[i] by {
        match texts[i] {
            Some(text) => {
                assert forall|k: int| 0 <= k < entries.len() implies !occurs_in(
                    text,
                    token_of(#[trigger] entries[k].0),
                ) by {
                    assert(parsed_nodes(md)[i] matches Some(t) ==> !occurs_in(
                        t,
                        token_of(entries[k].0),
                    ));
                }
                lemma_no_placeholder(text, entries);
            },
            None => {},
        }
    }
    assert(substitute_texts(texts, entries) =~= texts);
}

} // verus!
