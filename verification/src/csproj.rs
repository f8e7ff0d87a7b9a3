//! Keeping the .NET project file in step with the repository configuration: the package
//! properties in the first `PropertyGroup`, one packed `None` item for the readme (and
//! the icon), and no empty `ItemGroup`s. The project is edited as a tree of plain values;
//! `xmltree` reads and writes it.
use vstd::prelude::*;

use crate::repo::RepoConfig;
use crate::storage::{file_name, file_name_of};
use crate::text::{chars_of, is_valid_utf8, push_str, string_from_chars, string_from_utf8_lossy};
use vstd::string::StringSliceAdditionalSpecFns;
use vstd::utf8::{decode_utf8, valid_utf8};

verus! {

/// `xmltree::Element`, the parsed form of an XML element.
#[verifier::external_type_specification]
#[verifier::external_body]
pub struct ExXmlElement(xmltree::Element);

/// `xmltree::XMLNode`, one child of a parsed XML element.
#[verifier::external_type_specification]
#[verifier::external_body]
pub struct ExXmlNode(xmltree::XMLNode);

/// `xmltree::ParseError`, why a document could not be read.
#[verifier::external_type_specification]
#[verifier::external_body]
pub struct ExXmlParseError(xmltree::ParseError);

/// `xmltree::Error` (the `xml` writer's error), why a document could not be written.
#[verifier::external_type_specification]
#[verifier::external_body]
pub struct ExXmlWriteError(xmltree::Error);

/// A node of an XML document.
#[derive(Debug, PartialEq, Eq)]
pub enum XmlNode {
    Element(XmlElement),
    Comment(String),
    CData(String),
    Text(String),
    ProcessingInstruction(String, Option<String>),
}

/// An XML element: its name and namespace information, its attributes (each name once)
/// and its children in order.
#[derive(Debug, PartialEq, Eq)]
pub struct XmlElement {
    pub prefix: Option<String>,
    pub namespace: Option<String>,
    pub namespaces: Option<Vec<(String, String)>>,
    pub name: String,
    pub attributes: Vec<(String, String)>,
    pub children: Vec<XmlNode>,
}

/// Converts a parsed `xmltree` element, children included.
#[verifier::external_body]
fn element_from_xml(e: xmltree::Element) -> XmlElement {
    XmlElement {
        prefix: e.prefix,
        namespace: e.namespace,
        namespaces: e.namespaces.map(|ns| ns.0.into_iter().collect()),
        name: e.name,
        attributes: e.attributes.into_iter().collect(),
        children: e.children.into_iter().map(node_from_xml).collect(),
    }
}

/// Converts a parsed `xmltree` node.
#[verifier::external_body]
fn node_from_xml(n: xmltree::XMLNode) -> XmlNode {
    match n {
        xmltree::XMLNode::Element(e) => XmlNode::Element(element_from_xml(e)),
        xmltree::XMLNode::Comment(s) => XmlNode::Comment(s),
        xmltree::XMLNode::CData(s) => XmlNode::CData(s),
        xmltree::XMLNode::Text(s) => XmlNode::Text(s),
        xmltree::XMLNode::ProcessingInstruction(a, b) => XmlNode::ProcessingInstruction(a, b),
    }
}

/// Converts an element back into `xmltree`'s form, children included.
#[verifier::external_body]
fn element_to_xml(e: &XmlElement) -> xmltree::Element {
    let mut out = xmltree::Element::new(&e.name);
    out.prefix = e.prefix.clone();
    out.namespace = e.namespace.clone();
    out.namespaces = e.namespaces.as_ref().map(|ns| xmltree::Namespace(ns.iter().cloned().collect()));
    out.attributes = e.attributes.iter().cloned().collect();
    out.children = e.children.iter().map(node_to_xml).collect();
    out
}

/// Converts a node back into `xmltree`'s form.
#[verifier::external_body]
fn node_to_xml(n: &XmlNode) -> xmltree::XMLNode {
    match n {
        XmlNode::Element(e) => xmltree::XMLNode::Element(element_to_xml(e)),
        XmlNode::Comment(s) => xmltree::XMLNode::Comment(s.clone()),
        XmlNode::CData(s) => xmltree::XMLNode::CData(s.clone()),
        XmlNode::Text(s) => xmltree::XMLNode::Text(s.clone()),
        XmlNode::ProcessingInstruction(a, b) => xmltree::XMLNode::ProcessingInstruction(a.clone(), b.clone()),
    }
}

/// The attributes as a map from name to value, a later repeat of a name replacing the
/// earlier one (as collecting them into a map does).
pub open spec fn attr_map(attrs: Seq<(String, String)>) -> Map<String, String>
    decreases attrs.len(),
{
    if attrs.len() == 0 {
        Map::empty()
    } else {
        attr_map(attrs.drop_last()).insert(attrs.last().0, attrs.last().1)
    }
}

/// Whether two elements are the same but for the order of their attributes, at every
/// depth.
pub open spec fn same_up_to_attribute_order(a: XmlElement, b: XmlElement) -> bool
    decreases a,
{
    &&& a.prefix == b.prefix
    &&& a.namespace == b.namespace
    &&& a.namespaces == b.namespaces
    &&& a.name == b.name
    &&& attr_map(a.attributes@) == attr_map(b.attributes@)
    &&& a.children@.len() == b.children@.len()
    &&& forall|i: int|
        0 <= i < a.children@.len() ==> same_node_up_to_attribute_order(
            #[trigger] a.children@[i],
            b.children@[i],
        )
}

/// Whether two nodes are the same but for the order of attributes in their elements.
pub open spec fn same_node_up_to_attribute_order(a: XmlNode, b: XmlNode) -> bool
    decreases a,
{
    match a {
        XmlNode::Element(x) => match b {
            XmlNode::Element(y) => same_up_to_attribute_order(x, y),
            _ => false,
        },
        _ => a == b,
    }
}

/// Whether `xmltree::Element::parse` accepts `bytes` as a document with a root element.
pub uninterp spec fn xml_document_parses(bytes: Seq<u8>) -> bool;

/// The root element `xmltree::Element::parse` reads out of `bytes`, its attributes in one
/// fixed order (the parser's own order varies between runs).
pub uninterp spec fn xml_parsed(bytes: Seq<u8>) -> XmlElement;

/// The text `xmltree::Element::write_with_config` (indented, without a document
/// declaration) writes for element `e` when each element's attribute map is walked in the
/// order of `e`'s attributes.
pub uninterp spec fn xml_written(e: XmlElement) -> Seq<u8>;

/// Calls `xmltree::Element::parse` on the document bytes and converts the root element.
/// Claimed: whether it succeeds, and the element it reads up to the order of attributes,
/// are functions of the bytes. The attribute order itself comes out of a hash map and
/// varies between runs.
#[verifier::external_body]
fn parse_xml(bytes: &[u8]) -> (r: Result<XmlElement, xmltree::ParseError>)
    ensures
        r is Ok <==> xml_document_parses(bytes@),
        r matches Ok(e) ==> same_up_to_attribute_order(e, xml_parsed(bytes@)),
{
    xmltree::Element::parse(bytes).map(element_from_xml)
}

/// Calls `xmltree::Element::write_with_config` with indentation and without a document
/// declaration. Claimed: it succeeds (the emitter into a `Vec` fails only on a second
/// document start or an end tag that does not match, and xmltree writes neither), writes
/// UTF-8 text, and writes `xml_written` of the element with its attributes in some order:
/// the attributes go through a hash map, walked in an order that varies between runs.
#[verifier::external_body]
fn write_xml(e: &XmlElement) -> (r: Result<Vec<u8>, xmltree::Error>)
    ensures
        r is Ok,
        r matches Ok(b) ==> valid_utf8(b@),
        r matches Ok(b) ==> exists|e2: XmlElement|
            same_up_to_attribute_order(e2, *e) && b@ == #[trigger] xml_written(e2),
{
    let mut out: Vec<u8> = Vec::new();
    let config = xmltree::EmitterConfig::new().perform_indent(true).write_document_declaration(false);
    element_to_xml(e).write_with_config(&mut out, config).map(|_| out)
}

// ----- the tree as the edits see it -----

/// Whether `n` is an element named `name`.
pub open spec fn named(n: XmlNode, name: Seq<char>) -> bool {
    n matches XmlNode::Element(e) && e.name@ == name
}

/// Index of the first element named `name` at or after `i`, or -1.
pub open spec fn first_named_from(s: Seq<XmlNode>, name: Seq<char>, i: int) -> int
    decreases s.len() - i,
{
    if i < 0 || i >= s.len() {
        -1
    } else if named(s[i], name) {
        i
    } else {
        first_named_from(s, name, i + 1)
    }
}

proof fn lemma_first_named(s: Seq<XmlNode>, name: Seq<char>, i: int)
    requires
        0 <= i,
    ensures
        first_named_from(s, name, i) == -1 || (i <= first_named_from(s, name, i) < s.len() && named(
            s[first_named_from(s, name, i)],
            name,
        )),
    decreases s.len() - i,
{
    if i < s.len() && !named(s[i], name) {
        lemma_first_named(s, name, i + 1);
    }
}

/// Index of the first element named `name`, or -1.
pub open spec fn first_named(s: Seq<XmlNode>, name: Seq<char>) -> int {
    first_named_from(s, name, 0)
}

/// Whether `b` has `a`'s name, namespace information and attributes.
pub open spec fn same_head(a: XmlElement, b: XmlElement) -> bool {
    a.prefix == b.prefix && a.namespace == b.namespace && a.namespaces == b.namespaces && a.name
        == b.name && a.attributes == b.attributes
}

/// Whether `e` is a new element named `name`: no namespace information and no attributes.
pub open spec fn plain_element(e: XmlElement, name: Seq<char>) -> bool {
    e.name@ == name && e.prefix is None && e.namespace is None && e.namespaces is None
        && e.attributes@.len() == 0
}

/// Whether the only child of `e` is the text `value`.
pub open spec fn text_only(e: XmlElement, value: Seq<char>) -> bool {
    e.children@.len() == 1 && (e.children@[0] matches XmlNode::Text(t) && t@ == value)
}

/// Whether `new` is `old` with its property `name` set to `value`: the first child element
/// of that name gets `value` as its only child, or, without one, a new element carrying
/// `value` is appended.
pub open spec fn property_set(old: XmlElement, new: XmlElement, name: Seq<char>, value: Seq<char>) -> bool {
    let k = first_named(old.children@, name);
    &&& same_head(old, new)
    &&& if k >= 0 {
        &&& new.children@.len() == old.children@.len()
        &&& forall|j: int| 0 <= j < old.children@.len() && j != k ==> new.children@[j] == old.children@[j]
        &&& old.children@[k] matches XmlNode::Element(e0) && (new.children@[k] matches XmlNode::Element(e1)
            && same_head(e0, e1) && text_only(e1, value))
    } else {
        &&& new.children@.len() == old.children@.len() + 1
        &&& new.children@.take(old.children@.len() as int) == old.children@
        &&& new.children@.last() matches XmlNode::Element(e) && plain_element(e, name) && text_only(e, value)
    }
}

/// Whether `new` is `old` with the property group at child `g` having property `name` set.
pub open spec fn group_property_set(old: XmlElement, new: XmlElement, g: int, name: Seq<char>, value: Seq<char>) -> bool {
    &&& same_head(old, new)
    &&& 0 <= g < old.children@.len()
    &&& new.children@.len() == old.children@.len()
    &&& forall|j: int| 0 <= j < old.children@.len() && j != g ==> new.children@[j] == old.children@[j]
    &&& old.children@[g] matches XmlNode::Element(g0) && (new.children@[g] matches XmlNode::Element(g1)
        && property_set(g0, g1, name, value))
}

/// Whether `new` is `old` with a property group at child `g`: the first one, or a new
/// empty one put first when there is none.
pub open spec fn group_ensured(old: XmlElement, new: XmlElement, g: int) -> bool {
    let k = first_named(old.children@, "PropertyGroup"@);
    &&& same_head(old, new)
    &&& if k >= 0 {
        g == k && new.children@ == old.children@
    } else {
        &&& g == 0
        &&& new.children@.len() == old.children@.len() + 1
        &&& new.children@.skip(1) == old.children@
        &&& new.children@[0] matches XmlNode::Element(e) && plain_element(e, "PropertyGroup"@)
            && e.children@.len() == 0
    }
}

/// The value of the first attribute named `key`.
pub open spec fn attribute(attrs: Seq<(String, String)>, key: Seq<char>) -> Option<Seq<char>>
    decreases attrs.len(),
{
    if attrs.len() == 0 {
        None
    } else if attrs[0].0@ == key {
        Some(attrs[0].1@)
    } else {
        attribute(attrs.drop_first(), key)
    }
}

/// Whether `n` is a `None` item whose `Include` is one of `aliases`.
pub open spec fn aliased_item(n: XmlNode, aliases: Seq<Seq<char>>) -> bool {
    n matches XmlNode::Element(e) && (e.name@ == "None"@ && (attribute(e.attributes@, "Include"@) matches Some(
        v,
    ) && aliases.contains(v)))
}

/// `s` without the aliased `None` items.
pub open spec fn without_aliased(s: Seq<XmlNode>, aliases: Seq<Seq<char>>) -> Seq<XmlNode>
    decreases s.len(),
{
    if s.len() == 0 {
        s
    } else {
        without_aliased(s.drop_last(), aliases) + if aliased_item(s.last(), aliases) {
            Seq::empty()
        } else {
            seq![s.last()]
        }
    }
}

/// Whether `g` is a new item group holding one packed `None` item for `packed_file`.
pub open spec fn pack_group(g: XmlElement, packed_file: Seq<char>, package_path: Seq<char>) -> bool {
    &&& plain_element(g, "ItemGroup"@)
    &&& g.children@.len() == 1
    &&& g.children@[0] matches XmlNode::Element(item) && item.name@ == "None"@ && item.prefix is None
        && item.namespace is None && item.namespaces is None && item.children@.len() == 0
        && item.attributes@.map_values(|a: (String, String)| (a.0@, a.1@)) == seq![
        ("Include"@, packed_file),
        ("Pack"@, "true"@),
        ("PackagePath"@, package_path),
    ]
}

/// Whether `new` is `old` with the `None` items aliased to a file dropped from every item
/// group and one packed item for the file appended in a new item group.
pub open spec fn pack_item_normalized(
    old: XmlElement,
    new: XmlElement,
    aliases: Seq<Seq<char>>,
    packed_file: Seq<char>,
    package_path: Seq<char>,
) -> bool {
    &&& same_head(old, new)
    &&& new.children@.len() == old.children@.len() + 1
    &&& forall|j: int|
        0 <= j < old.children@.len() ==> if named(#[trigger] old.children@[j], "ItemGroup"@) {
            old.children@[j] matches XmlNode::Element(e0) && (new.children@[j] matches XmlNode::Element(e1)
                && same_head(e0, e1) && e1.children@ == without_aliased(e0.children@, aliases))
        } else {
            new.children@[j] == old.children@[j]
        }
    &&& new.children@.last() matches XmlNode::Element(g) && pack_group(g, packed_file, package_path)
}

/// Whether `n` is an item group without children.
pub open spec fn empty_item_group(n: XmlNode) -> bool {
    n matches XmlNode::Element(e) && e.name@ == "ItemGroup"@ && e.children@.len() == 0
}

/// `s` without its empty item groups.
pub open spec fn without_empty_groups(s: Seq<XmlNode>) -> Seq<XmlNode>
    decreases s.len(),
{
    if s.len() == 0 {
        s
    } else {
        without_empty_groups(s.drop_last()) + if empty_item_group(s.last()) {
            Seq::empty()
        } else {
            seq![s.last()]
        }
    }
}

// ----- the edits -----

fn text_node(value: &str) -> (n: XmlNode)
    ensures
        n matches XmlNode::Text(t) && t@ == value@,
{
    XmlNode::Text(value.to_owned())
}

fn new_element(name: &str) -> (e: XmlElement)
    ensures
        plain_element(e, name@),
        e.children@.len() == 0,
{
    XmlElement {
        prefix: None,
        namespace: None,
        namespaces: None,
        name: name.to_owned(),
        attributes: Vec::new(),
        children: Vec::new(),
    }
}

fn is_named(n: &XmlNode, name: &str) -> (r: bool)
    ensures
        r == named(*n, name@),
{
    match n {
        XmlNode::Element(e) => {
            let a = chars_of(e.name.as_str());
            let b = chars_of(name);
            crate::text::chars_equal(a.as_slice(), b.as_slice())
        },
        _ => false,
    }
}

fn find_named(s: &Vec<XmlNode>, name: &str) -> (r: Option<usize>)
    ensures
        match r {
            Some(k) => k as int == first_named(s@, name@) && k < s@.len(),
            None => first_named(s@, name@) == -1,
        },
{
    let mut i: usize = 0;
    while i < s.len()
        invariant
            i <= s@.len(),
            first_named(s@, name@) == first_named_from(s@, name@, i as int),
        decreases s@.len() - i,
    {
        if is_named(&s[i], name) {
            return Some(i);
        }
        i = i + 1;
    }
    None
}

/// Puts a property group among the project's children when there is none, and gives the
/// index of the first one.
pub fn get_or_add_property_group(project: &mut XmlElement) -> (g: usize)
    ensures
        group_ensured(*old(project), *final(project), g as int),
        (g as int) < final(project).children@.len(),
        named(final(project).children@[g as int], "PropertyGroup"@),
{
    proof {
        lemma_first_named(project.children@, "PropertyGroup"@, 0);
    }
    match find_named(&project.children, "PropertyGroup") {
        Some(k) => k,
        None => {
            let group = new_element("PropertyGroup");
            project.children.insert(0, XmlNode::Element(group));
            assert(project.children@.skip(1) =~= old(project).children@);
            0
        },
    }
}

/// Sets property `name` of a property group to `value`: the first child element of that
/// name gets `value` as its only child, or a new element carrying it is appended.
pub fn set_or_add_property(group: &mut XmlElement, name: &str, value: &str)
    ensures
        property_set(*old(group), *final(group), name@, value@),
{
    proof {
        lemma_first_named(group.children@, name@, 0);
    }
    match find_named(&group.children, name) {
        Some(k) => {
            let mut children: Vec<XmlNode> = Vec::new();
            std::mem::swap(&mut children, &mut group.children);
            let ghost before = children@;
            let removed = children.remove(k);
            assert(removed == before[k as int]);
            match removed {
                XmlNode::Element(e) => {
                    let mut kids: Vec<XmlNode> = Vec::new();
                    kids.push(text_node(value));
                    let e1 = XmlElement {
                        prefix: e.prefix,
                        namespace: e.namespace,
                        namespaces: e.namespaces,
                        name: e.name,
                        attributes: e.attributes,
                        children: kids,
                    };
                    children.insert(k, XmlNode::Element(e1));
                },
                other => {
                    children.insert(k, other);
                },
            }
            assert forall|j: int| 0 <= j < before.len() && j != k implies children@[j] == before[j] by {
                if j < k {
                    assert(children@[j] == before.remove(k as int)[j]);
                } else {
                    assert(children@[j] == before.remove(k as int)[j - 1]);
                }
            }
            std::mem::swap(&mut children, &mut group.children);
        },
        None => {
            let mut e = new_element(name);
            e.children.push(text_node(value));
            group.children.push(XmlNode::Element(e));
            assert(group.children@.take(old(group).children@.len() as int) =~= old(group).children@);
        },
    }
}


/// Sets property `name` of the property group at child `g` of the project.
pub fn set_group_property(project: &mut XmlElement, g: usize, name: &str, value: &str)
    requires
        (g as int) < old(project).children@.len(),
        named(old(project).children@[g as int], "PropertyGroup"@),
    ensures
        group_property_set(*old(project), *final(project), g as int, name@, value@),
        named(final(project).children@[g as int], "PropertyGroup"@),
{
    let mut children: Vec<XmlNode> = Vec::new();
    std::mem::swap(&mut children, &mut project.children);
    let ghost before = children@;
    let removed = children.remove(g);
    assert(removed == before[g as int]);
    match removed {
        XmlNode::Element(mut e) => {
            set_or_add_property(&mut e, name, value);
            children.insert(g, XmlNode::Element(e));
        },
        other => {
            children.insert(g, other);
        },
    }
    assert forall|j: int| 0 <= j < before.len() && j != g implies children@[j] == before[j] by {
        if j < g {
            assert(children@[j] == before.remove(g as int)[j]);
        } else {
            assert(children@[j] == before.remove(g as int)[j - 1]);
        }
    }
    std::mem::swap(&mut children, &mut project.children);
}

fn text_equal(a: &str, b: &str) -> (r: bool)
    ensures
        r == (a@ == b@),
{
    let x = chars_of(a);
    let y = chars_of(b);
    crate::text::chars_equal(x.as_slice(), y.as_slice())
}

fn find_attribute(attrs: &Vec<(String, String)>, key: &str) -> (r: Option<usize>)
    ensures
        match r {
            Some(i) => i < attrs@.len() && attribute(attrs@, key@) == Some(attrs@[i as int].1@),
            None => attribute(attrs@, key@) is None,
        },
{
    let mut i: usize = 0;
    assert(attrs@.skip(0) =~= attrs@);
    while i < attrs.len()
        invariant
            i <= attrs@.len(),
            attribute(attrs@, key@) == attribute(attrs@.skip(i as int), key@),
        decreases attrs@.len() - i,
    {
        assert(attrs@.skip(i as int)[0] == attrs@[i as int]);
        assert(attrs@.skip(i as int).drop_first() =~= attrs@.skip(i + 1));
        if text_equal(attrs[i].0.as_str(), key) {
            return Some(i);
        }
        i = i + 1;
    }
    assert(attrs@.skip(i as int).len() == 0);
    None
}

/// The texts of the aliases.
pub open spec fn alias_texts(aliases: &[&str]) -> Seq<Seq<char>> {
    aliases@.map_values(|a: &str| a@)
}

fn is_alias(aliases: &[&str], v: &str) -> (r: bool)
    ensures
        r == alias_texts(aliases).contains(v@),
{
    let mut i: usize = 0;
    while i < aliases.len()
        invariant
            i <= aliases@.len(),
            forall|j: int| 0 <= j < i ==> alias_texts(aliases)[j] != v@,
        decreases aliases@.len() - i,
    {
        if text_equal(aliases[i], v) {
            assert(alias_texts(aliases)[i as int] == v@);
            return true;
        }
        i = i + 1;
    }
    false
}

fn is_aliased_item(n: &XmlNode, aliases: &[&str]) -> (r: bool)
    ensures
        r == aliased_item(*n, alias_texts(aliases)),
{
    match n {
        XmlNode::Element(e) => {
            if !text_equal(e.name.as_str(), "None") {
                return false;
            }
            match find_attribute(&e.attributes, "Include") {
                Some(i) => is_alias(aliases, e.attributes[i].1.as_str()),
                None => false,
            }
        },
        _ => false,
    }
}

fn drop_aliased(items: Vec<XmlNode>, aliases: &[&str]) -> (r: Vec<XmlNode>)
    ensures
        r@ == without_aliased(items@, alias_texts(aliases)),
{
    let ghost all = items@;
    let total = items.len();
    let mut rest = items;
    let mut out: Vec<XmlNode> = Vec::new();
    let mut k: usize = 0;
    assert(all.take(0) =~= Seq::<XmlNode>::empty());
    while rest.len() > 0
        invariant
            k + rest@.len() == all.len(),
            all.len() == total,
            rest@ == all.skip(k as int),
            out@ == without_aliased(all.take(k as int), alias_texts(aliases)),
        decreases rest@.len(),
    {
        let n = rest.remove(0);
        assert(n == all[k as int]);
        assert(all.take(k + 1).drop_last() =~= all.take(k as int));
        let aliased = is_aliased_item(&n, aliases);
        if !aliased {
            out.push(n);
        }
        k = k + 1;
        assert(rest@ =~= all.skip(k as int));
        assert(out@ =~= without_aliased(all.take(k as int), alias_texts(aliases)));
    }
    assert(all.take(k as int) =~= all);
    out
}

fn pack_item_group(packed_file: &str, package_path: &str) -> (g: XmlElement)
    ensures
        pack_group(g, packed_file@, package_path@),
{
    let mut item = new_element("None");
    item.attributes.push(("Include".to_owned(), packed_file.to_owned()));
    item.attributes.push(("Pack".to_owned(), "true".to_owned()));
    item.attributes.push(("PackagePath".to_owned(), package_path.to_owned()));
    let mut group = new_element("ItemGroup");
    group.children.push(XmlNode::Element(item));
    proof {
        assert(item.attributes@.map_values(|a: (String, String)| (a.0@, a.1@)) =~= seq![
            ("Include"@, packed_file@),
            ("Pack"@, "true"@),
            ("PackagePath"@, package_path@),
        ]);
    }
    group
}

/// Drops the `None` items aliased to a file from every item group, and appends a new item
/// group with one packed `None` item for the file.
pub fn normalize_pack_none_item(
    project: &mut XmlElement,
    aliases: &[&str],
    packed_file: &str,
    package_path: &str,
)
    ensures
        pack_item_normalized(
            *old(project),
            *final(project),
            alias_texts(aliases),
            packed_file@,
            package_path@,
        ),
{
    let mut rest: Vec<XmlNode> = Vec::new();
    std::mem::swap(&mut rest, &mut project.children);
    let ghost all = rest@;
    let total = rest.len();
    let mut out: Vec<XmlNode> = Vec::new();
    let mut k: usize = 0;
    while rest.len() > 0
        invariant
            k + rest@.len() == all.len(),
            all.len() == total,
            rest@ == all.skip(k as int),
            out@.len() == k,
            forall|j: int|
                0 <= j < k ==> if named(#[trigger] all[j], "ItemGroup"@) {
                    all[j] matches XmlNode::Element(e0) && (out@[j] matches XmlNode::Element(e1)
                        && same_head(e0, e1) && e1.children@ == without_aliased(
                        e0.children@,
                        alias_texts(aliases),
                    ))
                } else {
                    out@[j] == all[j]
                },
        decreases rest@.len(),
    {
        let n = rest.remove(0);
        assert(n == all[k as int]);
        let group = is_named(&n, "ItemGroup");
        if group {
            match n {
                XmlNode::Element(e) => {
                    let kept = drop_aliased(e.children, aliases);
                    out.push(
                        XmlNode::Element(
                            XmlElement {
                                prefix: e.prefix,
                                namespace: e.namespace,
                                namespaces: e.namespaces,
                                name: e.name,
                                attributes: e.attributes,
                                children: kept,
                            },
                        ),
                    );
                },
                other => {
                    out.push(other);
                },
            }
        } else {
            out.push(n);
        }
        k = k + 1;
        assert(rest@ =~= all.skip(k as int));
    }
    out.push(XmlNode::Element(pack_item_group(packed_file, package_path)));
    std::mem::swap(&mut out, &mut project.children);
}

/// Drops the item groups that have no children.
pub fn prune_empty_item_groups(project: &mut XmlElement)
    ensures
        same_head(*old(project), *final(project)),
        final(project).children@ == without_empty_groups(old(project).children@),
{
    let mut rest: Vec<XmlNode> = Vec::new();
    std::mem::swap(&mut rest, &mut project.children);
    let ghost all = rest@;
    let total = rest.len();
    let mut out: Vec<XmlNode> = Vec::new();
    let mut k: usize = 0;
    assert(all.take(0) =~= Seq::<XmlNode>::empty());
    while rest.len() > 0
        invariant
            k + rest@.len() == all.len(),
            all.len() == total,
            rest@ == all.skip(k as int),
            out@ == without_empty_groups(all.take(k as int)),
        decreases rest@.len(),
    {
        let n = rest.remove(0);
        assert(n == all[k as int]);
        assert(all.take(k + 1).drop_last() =~= all.take(k as int));
        let empty = match &n {
            XmlNode::Element(e) => e.children.len() == 0 && text_equal(e.name.as_str(), "ItemGroup"),
            _ => false,
        };
        if !empty {
            out.push(n);
        }
        k = k + 1;
        assert(rest@ =~= all.skip(k as int));
        assert(out@ =~= without_empty_groups(all.take(k as int)));
    }
    assert(all.take(k as int) =~= all);
    std::mem::swap(&mut out, &mut project.children);
}


/// The texts of `items` joined with `;` between them.
pub open spec fn joined(items: Seq<Seq<char>>) -> Seq<char>
    decreases items.len(),
{
    if items.len() == 0 {
        Seq::empty()
    } else if items.len() == 1 {
        items[0]
    } else {
        joined(items.drop_last()) + ";"@ + items.last()
    }
}

fn join_semicolons(items: &Vec<String>) -> (r: String)
    ensures
        r@ == joined(items@.map_values(|s: String| s@)),
{
    let ghost v = items@.map_values(|s: String| s@);
    let mut out: Vec<char> = Vec::new();
    let mut i: usize = 0;
    while i < items.len()
        invariant
            i <= items@.len(),
            v == items@.map_values(|s: String| s@),
            out@ == joined(v.take(i as int)),
        decreases items@.len() - i,
    {
        let ghost before = out@;
        if i > 0 {
            push_str(&mut out, ";");
        }
        push_str(&mut out, items[i].as_str());
        proof {
            reveal_strlit(";");
            assert(v.take(i + 1).drop_last() =~= v.take(i as int));
            assert(v.take(i + 1).last() == items@[i as int]@);
            if i == 0 {
                assert(out@ =~= joined(v.take(1)));
            } else {
                assert(out@ =~= joined(v.take(i as int)) + ";"@ + v.take(i + 1).last());
            }
        }
        i = i + 1;
    }
    assert(v.take(i as int) =~= v);
    string_from_chars(out.as_slice())
}

/// Whether `states` runs from `old` to `new` setting the properties one after the other in
/// the group at `g`.
pub open spec fn property_steps(
    states: Seq<XmlElement>,
    old: XmlElement,
    new: XmlElement,
    g: int,
    props: Seq<(Seq<char>, Seq<char>)>,
) -> bool {
    &&& states.len() == props.len() + 1
    &&& states[0] == old
    &&& states.last() == new
    &&& forall|i: int|
        0 <= i < props.len() ==> group_property_set(#[trigger] states[i], states[i + 1], g, props[i].0, props[i].1)
}

/// Whether `states` runs from `old` to `new` normalizing each file's packed item in turn: its
/// aliases and the file name it is packed as.
pub open spec fn pack_steps(
    states: Seq<XmlElement>,
    old: XmlElement,
    new: XmlElement,
    packs: Seq<(Seq<Seq<char>>, Seq<char>)>,
) -> bool {
    &&& states.len() == packs.len() + 1
    &&& states[0] == old
    &&& states.last() == new
    &&& forall|i: int|
        0 <= i < packs.len() ==> pack_item_normalized(#[trigger] states[i], states[i + 1], packs[i].0, packs[i].1, "\\"@)
}

/// The properties the project carries, given the readme's and the icon's file names.
pub open spec fn csproj_properties(c: RepoConfig, readme_file: Seq<char>, icon_file: Option<Seq<char>>) -> Seq<
    (Seq<char>, Seq<char>),
> {
    seq![
        ("PackageId"@, c.nuget.package_id@),
        ("Version"@, c.versions.nuget_package@),
        ("Description"@, c.nuget.description@),
        ("PackageReadmeFile"@, readme_file),
        ("RepositoryUrl"@, c.nuget.repository_url@),
        ("PackageProjectUrl"@, c.nuget.project_url@),
        ("Authors"@, joined(c.nuget.authors@.map_values(|s: String| s@))),
        ("PackageTags"@, joined(c.nuget.tags@.map_values(|s: String| s@))),
    ] + match icon_file {
        Some(f) => seq![("PackageIcon"@, f)],
        None => Seq::empty(),
    }
}

/// The files packed with the package: the readme and, when there is one, the icon, each
/// with the paths it may be included by and its file name.
pub open spec fn csproj_packs(c: RepoConfig, readme_file: Seq<char>, icon_file: Option<Seq<char>>) -> Seq<
    (Seq<Seq<char>>, Seq<char>),
> {
    seq![(seq![c.nuget.readme@, readme_file], readme_file)] + match (c.nuget.icon, icon_file) {
        (Some(i), Some(f)) => seq![(seq![i@, f], f)],
        _ => Seq::empty(),
    }
}

/// The message of a configured path that names no file.
pub open spec fn no_file_name_message(path: Seq<char>) -> Seq<char> {
    "path must end with a file name: "@ + path
}

/// Whether `new` is the project `old` brought in step with `c`, the readme and icon
/// having the file names given: a property group ensured, the properties set in it, each
/// packed file normalized, and the empty item groups dropped.
pub open spec fn synced(old: XmlElement, new: XmlElement, c: RepoConfig, readme_file: Seq<char>, icon_file: Option<Seq<char>>) -> bool {
    exists|g: int, prop_states: Seq<XmlElement>, pack_states: Seq<XmlElement>|
        #[trigger] property_steps(
            prop_states,
            prop_states[0],
            prop_states.last(),
            g,
            csproj_properties(c, readme_file, icon_file),
        ) && group_ensured(old, prop_states[0], g) && #[trigger] pack_steps(
            pack_states,
            prop_states.last(),
            pack_states.last(),
            csproj_packs(c, readme_file, icon_file),
        ) && same_head(pack_states.last(), new) && new.children@ == without_empty_groups(
            pack_states.last().children@,
        )
}

/// Brings a parsed project in step with the configuration. The readme and the icon must
/// name files; otherwise the first that does not is reported.
pub fn sync_csproj_tree(project: XmlElement, config: &RepoConfig) -> (r: Result<XmlElement, String>)
    ensures
        match file_name_of(config.nuget.readme@) {
            None => r matches Err(m) && m@ == no_file_name_message(config.nuget.readme@),
            Some(readme_file) => match config.nuget.icon {
                Some(icon) => match file_name_of(icon@) {
                    None => r matches Err(m) && m@ == no_file_name_message(icon@),
                    Some(icon_file) => r matches Ok(p) && synced(project, p, *config, readme_file, Some(icon_file)),
                },
                None => r matches Ok(p) && synced(project, p, *config, readme_file, None),
            },
        },
{
    let readme_file = match file_name(config.nuget.readme.as_str()) {
        Some(f) => f,
        None => {
            let mut m: Vec<char> = Vec::new();
            push_str(&mut m, "path must end with a file name: ");
            push_str(&mut m, config.nuget.readme.as_str());
            return Err(string_from_chars(m.as_slice()));
        },
    };
    let icon_file: Option<String> = match &config.nuget.icon {
        Some(icon) => match file_name(icon.as_str()) {
            Some(f) => Some(f),
            None => {
                let mut m: Vec<char> = Vec::new();
                push_str(&mut m, "path must end with a file name: ");
                push_str(&mut m, icon.as_str());
                return Err(string_from_chars(m.as_slice()));
            },
        },
        None => None,
    };
    let ghost icon_view: Option<Seq<char>> = crate::ffi_error::opt_text(icon_file);
    let ghost props = csproj_properties(*config, readme_file@, icon_view);
    let ghost packs = csproj_packs(*config, readme_file@, icon_view);
    let mut p = project;
    let ghost p0 = p;
    let g = get_or_add_property_group(&mut p);
    let ghost p1 = p;
    let authors = join_semicolons(&config.nuget.authors);
    let tags = join_semicolons(&config.nuget.tags);
    let names: [&str; 8] = [
        "PackageId",
        "Version",
        "Description",
        "PackageReadmeFile",
        "RepositoryUrl",
        "PackageProjectUrl",
        "Authors",
        "PackageTags",
    ];
    let values: [&str; 8] = [
        config.nuget.package_id.as_str(),
        config.versions.nuget_package.as_str(),
        config.nuget.description.as_str(),
        readme_file.as_str(),
        config.nuget.repository_url.as_str(),
        config.nuget.project_url.as_str(),
        authors.as_str(),
        tags.as_str(),
    ];
    proof {
        reveal_strlit("PackageId");
        reveal_strlit("Version");
        reveal_strlit("Description");
        reveal_strlit("PackageReadmeFile");
        reveal_strlit("RepositoryUrl");
        reveal_strlit("PackageProjectUrl");
        reveal_strlit("Authors");
        reveal_strlit("PackageTags");
    }
    let ghost mut states: Seq<XmlElement> = seq![p1];
    let mut i: usize = 0;
    while i < 8
        invariant
            i <= 8,
            props.len() >= 8,
            forall|j: int| 0 <= j < 8 ==> (#[trigger] names@[j])@ == props[j].0 && values@[j]@ == props[j].1,
            (g as int) < p.children@.len(),
            named(p.children@[g as int], "PropertyGroup"@),
            property_steps(states, p1, p, g as int, props.take(i as int)),
        decreases 8 - i,
    {
        set_group_property(&mut p, g, names[i], values[i]);
        proof {
            assert(names@[i as int]@ == props[i as int].0);
            let next = states.push(p);
            assert forall|k: int| 0 <= k < i + 1 implies group_property_set(
                #[trigger] next[k],
                next[k + 1],
                g as int,
                props.take(i + 1)[k].0,
                props.take(i + 1)[k].1,
            ) by {
                if k < i {
                    assert(next[k] == states[k] && next[k + 1] == states[k + 1]);
                    assert(props.take(i + 1)[k] == props.take(i as int)[k]);
                }
            }
            states = next;
        }
        i = i + 1;
    }
    match &icon_file {
        Some(f) => {
            set_group_property(&mut p, g, "PackageIcon", f.as_str());
            proof {
                reveal_strlit("PackageIcon");
                let next = states.push(p);
                assert forall|k: int| 0 <= k < 9 implies group_property_set(
                    #[trigger] next[k],
                    next[k + 1],
                    g as int,
                    props[k].0,
                    props[k].1,
                ) by {
                    if k < 8 {
                        assert(next[k] == states[k] && next[k + 1] == states[k + 1]);
                        assert(props.take(8)[k] == props[k]);
                    }
                }
                states = next;
                assert(property_steps(states, p1, p, g as int, props));
            }
        },
        None => {
            assert(props.take(8) =~= props);
        },
    }
    let ghost p2 = p;
    let ghost prop_states = states;
    let ghost mut pstates: Seq<XmlElement> = seq![p2];
    let readme_aliases: [&str; 2] = [config.nuget.readme.as_str(), readme_file.as_str()];
    let readme_slice = readme_aliases.as_slice();
    normalize_pack_none_item(&mut p, readme_slice, readme_file.as_str(), "\\");
    proof {
        assert(alias_texts(readme_slice) =~= packs[0].0);
        pstates = pstates.push(p);
        assert(pack_steps(pstates, p2, p, packs.take(1)));
    }
    match (&config.nuget.icon, &icon_file) {
        (Some(icon), Some(f)) => {
            let icon_aliases: [&str; 2] = [icon.as_str(), f.as_str()];
            let icon_slice = icon_aliases.as_slice();
            normalize_pack_none_item(&mut p, icon_slice, f.as_str(), "\\");
            proof {
                assert(alias_texts(icon_slice) =~= packs[1].0);
                let next = pstates.push(p);
                assert forall|k: int| 0 <= k < 2 implies pack_item_normalized(
                    #[trigger] next[k],
                    next[k + 1],
                    packs[k].0,
                    packs[k].1,
                    "\\"@,
                ) by {
                    if k == 0 {
                        assert(next[0] == pstates[0] && next[1] == pstates[1]);
                        assert(packs.take(1)[0] == packs[0]);
                    }
                }
                pstates = next;
                assert(pack_steps(pstates, p2, p, packs));
            }
        },
        _ => {
            assert(packs.take(1) =~= packs);
        },
    }
    prune_empty_item_groups(&mut p);
    proof {
        assert(group_ensured(p0, prop_states[0], g as int));
        assert(property_steps(prop_states, prop_states[0], prop_states.last(), g as int, props));
        assert(pack_steps(pstates, prop_states.last(), pstates.last(), packs));
    }
    Ok(p)
}

/// Whether `t` is the text of a project parsed from `bytes`, brought in step with `c` as
/// `synced` says, and written back (attributes in some order).
pub open spec fn synced_text(
    bytes: Seq<u8>,
    t: Seq<char>,
    c: RepoConfig,
    readme_file: Seq<char>,
    icon_file: Option<Seq<char>>,
) -> bool {
    exists|p0: XmlElement, p: XmlElement, e2: XmlElement|
        #![trigger synced(p0, p, c, readme_file, icon_file), xml_written(e2)]
        same_up_to_attribute_order(p0, xml_parsed(bytes)) && synced(p0, p, c, readme_file, icon_file)
            && same_up_to_attribute_order(e2, p) && t == decode_utf8(xml_written(e2))
}

/// Brings the text of a project file in step with the configuration: the file is parsed,
/// edited as `sync_csproj_tree` says, and written back with indentation and without a
/// document declaration. It succeeds exactly when the text parses and the readme and icon
/// paths name files, and then gives the edited project's text; a text that does not parse
/// is reported first, then a readme, then an icon without a file name. The text is stated
/// up to the order of attributes, which the parser and the writer take from hash maps.
pub fn sync_csproj(content: &str, config: &RepoConfig) -> (r: Result<String, String>)
    ensures
        !xml_document_parses(content.spec_bytes()) ==> (r matches Err(m) && m@
            == "failed to parse Rheo.Storage.csproj"@),
        xml_document_parses(content.spec_bytes()) ==> match file_name_of(config.nuget.readme@) {
            None => r matches Err(m) && m@ == no_file_name_message(config.nuget.readme@),
            Some(readme_file) => match config.nuget.icon {
                Some(i) => match file_name_of(i@) {
                    None => r matches Err(m) && m@ == no_file_name_message(i@),
                    Some(icon_file) => r matches Ok(t) && synced_text(
                        content.spec_bytes(),
                        t@,
                        *config,
                        readme_file,
                        Some(icon_file),
                    ),
                },
                None => r matches Ok(t) && synced_text(
                    content.spec_bytes(),
                    t@,
                    *config,
                    readme_file,
                    None,
                ),
            },
        },
{
    let project = match parse_xml(content.as_bytes()) {
        Ok(p) => p,
        Err(_) => return Err("failed to parse Rheo.Storage.csproj".to_owned()),
    };
    let ghost p0 = project;
    let edited = match sync_csproj_tree(project, config) {
        Ok(p) => p,
        Err(m) => return Err(m),
    };
    let bytes = match write_xml(&edited) {
        Ok(b) => b,
        Err(_) => return Err("failed to render Rheo.Storage.csproj".to_owned()),
    };
    if !is_valid_utf8(bytes.as_slice()) {
        return Err("generated csproj was not valid utf-8".to_owned());
    }
    let t = string_from_utf8_lossy(bytes.as_slice());
    proof {
        let e2 = choose|e2: XmlElement| same_up_to_attribute_order(e2, edited) && bytes@ == #[trigger] xml_written(e2);
        let b = content.spec_bytes();
        match file_name_of(config.nuget.readme@) {
            Some(rf) => match &config.nuget.icon {
                Some(i) => match file_name_of(i@) {
                    Some(icf) => {
                        assert(synced(p0, edited, *config, rf, Some(icf)));
                        assert(synced_text(b, t@, *config, rf, Some(icf)));
                    },
                    None => {},
                },
                None => {
                    assert(synced(p0, edited, *config, rf, None));
                    assert(synced_text(b, t@, *config, rf, None));
                },
            },
            None => {},
        }
    }
    Ok(t)
}

} // verus!
