use snippit::errors::ConvertError;
use snippit::tree::{snippit_replace, DocumentTree, NodeContent};

fn texts_of(tree: &DocumentTree) -> Vec<String> {
    let mut out = Vec::new();
    for i in 0..tree.len() {
        if let Some(bytes) = tree.text(i) {
            out.push(String::from_utf8(bytes.clone()).unwrap());
        }
    }
    out
}

fn nodes_of(tree: &DocumentTree) -> Vec<NodeContent> {
    (0..tree.len())
        .map(|i| match tree.text(i) {
            Some(bytes) => NodeContent::Text(bytes.clone()),
            None => NodeContent::Markup,
        })
        .collect()
}

#[test]
fn parse_gives_the_nodes_in_tree_order() {
    let tree = DocumentTree::parse("Hello *big* world\n");
    assert_eq!(tree.source(), "Hello *big* world\n");
    assert_eq!(texts_of(&tree), vec!["Hello ", "big", " world"]);
    // document, paragraph, text, emphasis, text, text
    assert_eq!(tree.len(), 6);
    assert!(tree.text(0).is_none());
    assert!(tree.text(1).is_none());
    assert_eq!(tree.text(2).map(|b| b.as_slice()), Some("Hello ".as_bytes()));
    assert!(tree.text(3).is_none());
    assert_eq!(tree.text(4).map(|b| b.as_slice()), Some("big".as_bytes()));
    assert_eq!(tree.text(5).map(|b| b.as_slice()), Some(" world".as_bytes()));
    assert!(tree.text(6).is_none());
}

#[test]
fn replace_rewrites_text_content() {
    let mut tree = DocumentTree::parse("Hello $$name$$!");
    assert!(snippit_replace(&mut tree, "$$name$$", "World").is_ok());
    assert_eq!(texts_of(&tree), vec!["Hello World!"]);
    assert_eq!(tree.source(), "Hello $$name$$!");
}

#[test]
fn replace_reaches_nested_text_and_keeps_the_markup() {
    let md = "# $$t$$\n\n- one [$$t$$ here](http://x/$$t$$) and *$$t$$*\n";
    let mut tree = DocumentTree::parse(md);
    let before = nodes_of(&tree);
    assert!(snippit_replace(&mut tree, "$$t$$", "T").is_ok());
    let after = nodes_of(&tree);
    assert_eq!(before.len(), after.len());
    for (b, a) in before.iter().zip(after.iter()) {
        match (b, a) {
            (NodeContent::Markup, NodeContent::Markup) => {}
            (NodeContent::Text(x), NodeContent::Text(y)) => {
                let x = String::from_utf8(x.clone()).unwrap();
                let y = String::from_utf8(y.clone()).unwrap();
                assert_eq!(x.replace("$$t$$", "T"), y);
            }
            _ => panic!("a node changed its kind"),
        }
    }
    assert_eq!(texts_of(&tree), vec!["T", "one ", "T here", " and ", "T"]);
    let html = tree.render().ok().unwrap();
    assert_eq!(
        html,
        "<h1>T</h1>\n<ul>\n<li>one <a href=\"http://x/$$t$$\">T here</a> and <em>T</em></li>\n</ul>\n"
    );
}

#[test]
fn code_is_no_text() {
    let mut tree = DocumentTree::parse("`$$name$$`");
    assert!(texts_of(&tree).is_empty());
    assert!(snippit_replace(&mut tree, "$$name$$", "World").is_ok());
    assert_eq!(tree.render().ok().unwrap(), "<p><code>$$name$$</code></p>\n");
}

#[test]
fn render_without_changes_is_what_comrak_renders() {
    let md = "# Title\n\nSome *text* with `code` and a [link](http://example.com).\n\n> quote\n";
    let tree = DocumentTree::parse(md);
    assert_eq!(
        tree.render().ok().unwrap(),
        comrak::markdown_to_html(md, &comrak::Options::default())
    );
}

#[test]
fn from_nodes_takes_nodes_of_the_same_shape() {
    let md = "a *b*";
    let parsed = DocumentTree::parse(md);
    let mut nodes = nodes_of(&parsed);
    assert_eq!(nodes.len(), 5);
    nodes[2] = NodeContent::Text("x ".as_bytes().to_vec());
    let tree = DocumentTree::from_nodes(md, nodes).unwrap();
    assert_eq!(texts_of(&tree), vec!["x ", "b"]);
    assert_eq!(tree.render().ok().unwrap(), "<p>x <em>b</em></p>\n");
}

#[test]
fn from_nodes_refuses_another_shape() {
    let md = "a *b*";
    let parsed = DocumentTree::parse(md);
    let mut short = nodes_of(&parsed);
    short.pop();
    assert!(DocumentTree::from_nodes(md, short).is_none());
    let mut swapped = nodes_of(&parsed);
    swapped[0] = NodeContent::Text(Vec::new());
    assert!(DocumentTree::from_nodes(md, swapped).is_none());
    let mut emptied = nodes_of(&parsed);
    emptied[2] = NodeContent::Markup;
    assert!(DocumentTree::from_nodes(md, emptied).is_none());
    assert!(DocumentTree::from_nodes(md, Vec::new()).is_none());
}

#[test]
fn bytes_that_are_no_text_are_reported() {
    let md = "a *b*";
    let mut nodes = nodes_of(&DocumentTree::parse(md));
    nodes[4] = NodeContent::Text(vec![0xff, 0x24, 0x24]);
    let mut tree = DocumentTree::from_nodes(md, nodes.clone()).unwrap();
    assert!(matches!(
        snippit_replace(&mut tree, "a", "c"),
        Err(ConvertError::FromUtfError(_))
    ));
    // nothing was changed, not even the text before the faulty one
    assert_eq!(nodes_of(&tree), nodes);
    assert!(matches!(tree.render(), Err(ConvertError::FromUtfError(_))));
    let e = tree.render().err().unwrap();
    assert!(!e.message().is_empty());
}

#[test]
fn replace_works_on_characters_beyond_ascii() {
    let mut tree = DocumentTree::parse("Grüße, $$wer$$ – schön");
    assert!(snippit_replace(&mut tree, "$$wer$$", "Jürgen").is_ok());
    assert_eq!(texts_of(&tree), vec!["Grüße, Jürgen – schön"]);
}
