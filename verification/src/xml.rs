//! A plain-value model of a parsed XML document, filled in by `roxmltree`,
//! plus the byte-to-text decoding step done by `encoding_rs`.
//!
//! The parser in `plugin` never touches the XML crate directly: a manifest is
//! parsed once into an `XmlElem` tree of plain strings and vectors, and every
//! rule about the manifest's shape is then verified code over that tree.

use vstd::prelude::*;

verus! {

/// One attribute of an element: its (local) name and its value.
pub struct XmlAttr {
    pub name: String,
    pub value: String,
}

/// One element of a parsed document.
///
/// `children` holds the element children only, in document order.
/// `first_text` is the text that `roxmltree` reports for the element's first
/// child node, if there is one: the content of a leading text (or comment)
/// node, which is where an element's own text lives.  `has_child_nodes` is
/// true when the element has any child node at all, elements, text and
/// comments included.
pub struct XmlElem {
    pub tag: String,
    pub attrs: Vec<XmlAttr>,
    pub first_text: Option<String>,
    pub has_child_nodes: bool,
    pub children: Vec<XmlElem>,
}

/// What parsing a manifest text yields: the document's outermost element, or
/// the parser's diagnostic.  The result depends on the text alone.
pub uninterp spec fn xml_doc_of(text: Seq<char>) -> Result<XmlElem, Seq<char>>;

/// What decoding bytes as UTF-8 yields: the decoded text, or nothing when
/// the bytes are not valid UTF-8.  The result depends on the bytes alone.
pub uninterp spec fn utf8_decoded(bytes: Seq<u8>) -> Option<Seq<char>>;

/// What decoding bytes as Shift-JIS yields: the decoded text, or nothing
/// when some byte sequence has no interpretation in that encoding.  The
/// result depends on the bytes alone.
pub uninterp spec fn shift_jis_decoded(bytes: Seq<u8>) -> Option<Seq<char>>;

#[verifier::external_type_specification]
#[verifier::external_body]
pub struct ExNode<'a, 'input: 'a>(roxmltree::Node<'a, 'input>);

/// Relies on roxmltree's `Node`: `tag_name().name()`, `attributes()`,
/// `first_child()`, `text()`, `has_children()` and `children()` read one
/// node of the parsed document; elements alone are kept as children.
#[verifier::external_body]
fn convert_node<'a, 'input>(node: roxmltree::Node<'a, 'input>) -> XmlElem {
    XmlElem {
        tag: node.tag_name().name().to_string(),
        attrs: node.attributes().map(
            |a| XmlAttr { name: a.name().to_string(), value: a.value().to_string() },
        ).collect(),
        first_text: node.first_child().and_then(|c| c.text()).map(|t| t.to_string()),
        has_child_nodes: node.has_children(),
        children: node.children().filter(|c| c.is_element()).map(convert_node).collect(),
    }
}

/// Relies on `roxmltree::Document::parse_with_options`, with DTD constructs
/// tolerated: a well-formed text yields its outermost element, converted to
/// plain values by `convert_node`; a malformed one yields the parser's
/// diagnostic.  Parsing is deterministic, so the outcome is named by
/// `xml_doc_of`.
#[verifier::external_body]
pub(crate) fn parse_document(text: &str) -> (r: Result<XmlElem, String>)
    ensures
        match r {
            Ok(root) => xml_doc_of(text@) == Ok::<XmlElem, Seq<char>>(root),
            Err(diag) => xml_doc_of(text@) == Err::<XmlElem, Seq<char>>(diag@),
        },
{
    let options = roxmltree::ParsingOptions { allow_dtd: true, ..Default::default() };
    match roxmltree::Document::parse_with_options(text, options) {
        Ok(doc) => Ok(convert_node(doc.root_element())),
        Err(err) => Err(err.to_string()),
    }
}

/// Relies on `encoding_rs::UTF_8.decode`: yields the decoded text, or
/// nothing when the bytes hold a malformed sequence (`had_errors`).  An
/// initial byte-order mark switches the encoding accordingly, as that
/// function documents.  Decoding is deterministic, so the outcome is named
/// by `utf8_decoded`.
#[verifier::external_body]
pub(crate) fn decode_utf8(bytes: &Vec<u8>) -> (r: Option<String>)
    ensures
        match r {
            Some(s) => utf8_decoded(bytes@) == Some(s@),
            None => utf8_decoded(bytes@) is None,
        },
{
    let (text, _, had_errors) = encoding_rs::UTF_8.decode(bytes.as_slice());
    if had_errors {
        None
    } else {
        Some(text.into_owned())
    }
}

/// Relies on `encoding_rs::SHIFT_JIS.decode`: yields the decoded text, or
/// nothing when some sequence is malformed in that encoding (`had_errors`).
/// Decoding is deterministic, so the outcome is named by `shift_jis_decoded`.
#[verifier::external_body]
pub(crate) fn decode_shift_jis(bytes: &Vec<u8>) -> (r: Option<String>)
    ensures
        match r {
            Some(s) => shift_jis_decoded(bytes@) == Some(s@),
            None => shift_jis_decoded(bytes@) is None,
        },
{
    let (text, _, had_errors) = encoding_rs::SHIFT_JIS.decode(bytes.as_slice());
    if had_errors {
        None
    } else {
        Some(text.into_owned())
    }
}

/// The value of the first attribute named `name`, if any.  A well-formed
/// document never repeats an attribute name on one element.
pub open spec fn attrs_lookup(attrs: Seq<XmlAttr>, name: Seq<char>) -> Option<Seq<char>>
    decreases attrs.len(),
{
    if attrs.len() == 0 {
        None
    } else if attrs[0].name@ == name {
        Some(attrs[0].value@)
    } else {
        attrs_lookup(attrs.drop_first(), name)
    }
}

/// The attribute of `e` named `name`.
pub fn get_attr<'a>(e: &'a XmlElem, name: &str) -> (r: Option<&'a String>)
    ensures
        match r {
            Some(v) => attrs_lookup(e.attrs@, name@) == Some(v@),
            None => attrs_lookup(e.attrs@, name@) is None,
        },
{
    let n = e.attrs.len();
    let mut i: usize = 0;
    proof {
        assert(e.attrs@.subrange(0, n as int) =~= e.attrs@);
    }
    while i < n
        invariant
            0 <= i <= n,
            n == e.attrs@.len(),
            attrs_lookup(e.attrs@, name@) == attrs_lookup(
                e.attrs@.subrange(i as int, n as int),
                name@,
            ),
        decreases n - i,
    {
        let ghost suffix = e.attrs@.subrange(i as int, n as int);
        if crate::text::str_eq(e.attrs[i].name.as_str(), name) {
            proof {
                assert(suffix[0] == e.attrs@[i as int]);
            }
            return Some(&e.attrs[i].value);
        }
        proof {
            assert(suffix.drop_first() =~= e.attrs@.subrange(i + 1, n as int));
        }
        i = i + 1;
    }
    proof {
        assert(e.attrs@.subrange(n as int, n as int).len() == 0);
    }
    None
}

/// The first element child of `e` whose tag is `tag`, if any.
pub open spec fn find_tag(cs: Seq<XmlElem>, tag: Seq<char>) -> Option<XmlElem>
    decreases cs.len(),
{
    if cs.len() == 0 {
        None
    } else if cs[0].tag@ == tag {
        Some(cs[0])
    } else {
        find_tag(cs.drop_first(), tag)
    }
}

/// The first child of `e` tagged `tag`.
pub fn find_child_tag<'a>(e: &'a XmlElem, tag: &str) -> (r: Option<&'a XmlElem>)
    ensures
        match r {
            Some(c) => find_tag(e.children@, tag@) == Some(*c),
            None => find_tag(e.children@, tag@) is None,
        },
{
    let n = e.children.len();
    let mut i: usize = 0;
    proof {
        assert(e.children@.subrange(0, n as int) =~= e.children@);
    }
    while i < n
        invariant
            0 <= i <= n,
            n == e.children@.len(),
            find_tag(e.children@, tag@) == find_tag(e.children@.subrange(i as int, n as int), tag@),
        decreases n - i,
    {
        let ghost suffix = e.children@.subrange(i as int, n as int);
        if crate::text::str_eq(e.children[i].tag.as_str(), tag) {
            proof {
                assert(suffix[0] == e.children@[i as int]);
            }
            return Some(&e.children[i]);
        }
        proof {
            assert(suffix.drop_first() =~= e.children@.subrange(i + 1, n as int));
        }
        i = i + 1;
    }
    proof {
        assert(e.children@.subrange(n as int, n as int).len() == 0);
    }
    None
}

/// The first element tagged `plug-in` in preorder under `e`, `e` included.
pub open spec fn spec_find_plugin(e: XmlElem) -> Option<XmlElem>
    decreases e,
{
    if e.tag@ == "plug-in"@ {
        Some(e)
    } else {
        spec_find_plugin_in(e.children@)
    }
}

/// The first element tagged `plug-in` in preorder under any of `cs`.
pub open spec fn spec_find_plugin_in(cs: Seq<XmlElem>) -> Option<XmlElem>
    decreases cs,
{
    if cs.len() == 0 {
        None
    } else {
        match spec_find_plugin(cs[0]) {
            Some(found) => Some(found),
            None => spec_find_plugin_in(cs.drop_first()),
        }
    }
}

/// Finds the document's `plug-in` descriptor element, searching `e` and its
/// descendants in document order.
pub fn find_plugin_elem<'a>(e: &'a XmlElem) -> (r: Option<&'a XmlElem>)
    ensures
        match r {
            Some(root) => spec_find_plugin(*e) == Some(*root),
            None => spec_find_plugin(*e) is None,
        },
    decreases *e,
{
    if crate::text::str_eq(e.tag.as_str(), "plug-in") {
        return Some(e);
    }
    let n = e.children.len();
    let mut i: usize = 0;
    proof {
        assert(e.children@.subrange(0, n as int) =~= e.children@);
    }
    while i < n
        invariant
            0 <= i <= n,
            n == e.children@.len(),
            e.tag@ != "plug-in"@,
            spec_find_plugin_in(e.children@) == spec_find_plugin_in(
                e.children@.subrange(i as int, n as int),
            ),
        decreases n - i,
    {
        let ghost suffix = e.children@.subrange(i as int, n as int);
        proof {
            assert(suffix[0] == e.children@[i as int]);
            assert(suffix.drop_first() =~= e.children@.subrange(i + 1, n as int));
        }
        let sub = find_plugin_elem(&e.children[i]);
        if let Some(found) = sub {
            return Some(found);
        }
        i = i + 1;
    }
    proof {
        assert(e.children@.subrange(n as int, n as int).len() == 0);
    }
    None
}

} // verus!
