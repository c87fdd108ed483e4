//! A minimal XML tree: tags with ordered, unique attributes and ordered children, and
//! its serialization to text.
use vstd::prelude::*;

verus! {

/// `s` with each of the five XML special characters replaced by its entity.
pub open spec fn xml_escaped(s: Seq<char>) -> Seq<char>
    decreases s.len(),
{
    if s.len() == 0 {
        Seq::empty()
    } else {
        xml_escaped(s.drop_last()) + escaped_char(s.last())
    }
}

pub open spec fn escaped_char(c: char) -> Seq<char> {
    if c == '<' {
        seq!['&', 'l', 't', ';']
    } else if c == '>' {
        seq!['&', 'g', 't', ';']
    } else if c == '&' {
        seq!['&', 'a', 'm', 'p', ';']
    } else if c == '\'' {
        seq!['&', 'a', 'p', 'o', 's', ';']
    } else if c == '"' {
        seq!['&', 'q', 'u', 'o', 't', ';']
    } else {
        seq![c]
    }
}

/// Relies on `quick_xml::escape::escape`: replaces `<`, `>`, `&`, `'` and `"` by
/// `&lt;`, `&gt;`, `&amp;`, `&apos;` and `&quot;`, and keeps every other character.
#[verifier::external_body]
fn escape(s: &str) -> (r: String)
    ensures
        r@ == xml_escaped(s@),
{
    quick_xml::escape::escape(s).into_owned()
}

/// A child of an element: an element, or text that is already escaped.
#[derive(Debug)]
pub enum XmlChild {
    Element(XmlNode),
    Text(String),
}

impl XmlChild {
    pub fn is_element(&self) -> (r: bool)
        ensures
            r == self is Element,
    {
        match self {
            XmlChild::Element(_) => true,
            XmlChild::Text(_) => false,
        }
    }

    /// A text child holding `text` escaped.
    pub fn text(text: &str) -> (r: XmlChild)
        ensures
            r matches XmlChild::Text(t) && t@ == xml_escaped(text@),
    {
        XmlChild::Text(escape(text))
    }
}

/// An element: a tag name, attributes in insertion order with unique keys, and
/// children in order.
#[derive(Debug)]
pub struct XmlNode {
    pub tag: String,
    pub attributes: Vec<(String, String)>,
    pub children: Vec<XmlChild>,
}

/// The attributes as (key, value) texts.
pub open spec fn attrs_view(a: Seq<(String, String)>) -> Seq<(Seq<char>, Seq<char>)> {
    a.map_values(|p: (String, String)| (p.0@, p.1@))
}

/// The attributes after setting `k` to `v`: the first attribute with key `k` takes
/// the value in its place; without one, the attribute is appended.
pub open spec fn attrs_with(a: Seq<(Seq<char>, Seq<char>)>, k: Seq<char>, v: Seq<char>) -> Seq<
    (Seq<char>, Seq<char>),
>
    decreases a.len(),
{
    if a.len() == 0 {
        seq![(k, v)]
    } else if a[0].0 == k {
        a.update(0, (k, v))
    } else {
        seq![a[0]] + attrs_with(a.drop_first(), k, v)
    }
}

proof fn lemma_attrs_with_found(a: Seq<(Seq<char>, Seq<char>)>, k: Seq<char>, v: Seq<char>, i: int)
    requires
        0 <= i < a.len(),
        a[i].0 == k,
        forall|j: int| 0 <= j < i ==> #[trigger] a[j].0 != k,
    ensures
        attrs_with(a, k, v) == a.update(i, (k, v)),
    decreases a.len(),
{
    if i > 0 {
        let t = a.drop_first();
        assert forall|j: int| 0 <= j < i - 1 implies #[trigger] t[j].0 != k by {
            assert(t[j] == a[j + 1]);
        }
        assert(a[0].0 != k);
        lemma_attrs_with_found(t, k, v, i - 1);
        assert(attrs_with(a, k, v) =~= a.update(i, (k, v)));
    }
}

/// Setting a key that no attribute has appends it.
pub proof fn lemma_attrs_with_new_key(a: Seq<(Seq<char>, Seq<char>)>, k: Seq<char>, v: Seq<char>)
    requires
        forall|j: int| 0 <= j < a.len() ==> #[trigger] a[j].0 != k,
    ensures
        attrs_with(a, k, v) == a.push((k, v)),
    decreases a.len(),
{
    if a.len() > 0 {
        let t = a.drop_first();
        assert forall|j: int| 0 <= j < t.len() implies #[trigger] t[j].0 != k by {
            assert(t[j] == a[j + 1]);
        }
        assert(a[0].0 != k);
        lemma_attrs_with_new_key(t, k, v);
        assert(attrs_with(a, k, v) =~= a.push((k, v)));
    }
}

/// ` k="v"` for each attribute, values escaped.
pub open spec fn attrs_text(a: Seq<(Seq<char>, Seq<char>)>) -> Seq<char>
    decreases a.len(),
{
    if a.len() == 0 {
        Seq::empty()
    } else {
        attrs_text(a.drop_last()) + seq![' '] + a.last().0 + seq!['=', '"'] + xml_escaped(
            a.last().1,
        ) + seq!['"']
    }
}

/// The text of a run of children: an element with no children closes itself
/// (`<t a="v"/>`); one with children is written `<t a="v">children</t>`.
pub open spec fn children_text(cs: Seq<XmlChild>) -> Seq<char>
    decreases cs,
{
    if cs.len() == 0 {
        Seq::empty()
    } else {
        proof {
            lemma_last_children_decrease(cs);
        }
        children_text(cs.drop_last()) + match cs.last() {
            XmlChild::Text(t) => t@,
            XmlChild::Element(n) => seq!['<'] + n.tag@ + attrs_text(attrs_view(n.attributes@))
                + if n.children@.len() == 0 {
                seq!['/', '>']
            } else {
                seq!['>'] + children_text(n.children@) + seq!['<', '/'] + n.tag@ + seq!['>']
            },
        }
    }
}

/// The last child's children, and the children before it, are smaller than the whole
/// run of children.
pub proof fn lemma_last_children_decrease(cs: Seq<XmlChild>)
    requires
        cs.len() > 0,
    ensures
        cs.last() matches XmlChild::Element(n) ==> decreases_to!(cs => n.children@),
        decreases_to!(cs => cs.drop_last()),
{
    broadcast use vstd::std_specs::vec::axiom_vec_decreases_to_view;

    let c = cs[cs.len() - 1];
    assert(decreases_to!(cs => c));
    if let XmlChild::Element(n) = c {
        assert(decreases_to!(c => n));
        assert(decreases_to!(n => n.children));
        assert(decreases_to!(n.children => n.children@));
    }
    assert(cs.drop_last() =~= cs.subrange(0, cs.len() - 1));
}

/// The serialization of an element.
pub open spec fn node_text(n: XmlNode) -> Seq<char> {
    children_text(seq![XmlChild::Element(n)])
}

/// Relies on `quick_xml::Writer::write_event` with `Event::Empty`: a writer without
/// indentation writes `<`, the tag, each attribute as ` key="value"` with the value
/// escaped by `Attribute::from((&str, &str))`, and `/>`. Writing to a `Vec` cannot fail.
#[verifier::external_body]
fn empty_tag(tag: &str, attrs: &Vec<(String, String)>) -> (r: String)
    ensures
        r@ == seq!['<'] + tag@ + attrs_text(attrs_view(attrs@)) + seq!['/', '>'],
{
    let mut start = quick_xml::events::BytesStart::new(tag);
    start.extend_attributes(attrs.iter().map(|a| (a.0.as_str(), a.1.as_str())));
    let mut writer = quick_xml::Writer::new(Vec::new());
    let _ = writer.write_event(quick_xml::events::Event::Empty(start));
    String::from_utf8(writer.into_inner()).unwrap_or_default()
}

/// Relies on `quick_xml::Writer::write_event` with `Event::Start`: as for
/// [`empty_tag`], closed by `>` instead of `/>`.
#[verifier::external_body]
fn start_tag(tag: &str, attrs: &Vec<(String, String)>) -> (r: String)
    ensures
        r@ == seq!['<'] + tag@ + attrs_text(attrs_view(attrs@)) + seq!['>'],
{
    let mut start = quick_xml::events::BytesStart::new(tag);
    start.extend_attributes(attrs.iter().map(|a| (a.0.as_str(), a.1.as_str())));
    let mut writer = quick_xml::Writer::new(Vec::new());
    let _ = writer.write_event(quick_xml::events::Event::Start(start));
    String::from_utf8(writer.into_inner()).unwrap_or_default()
}

/// Relies on `quick_xml::Writer::write_event` with `Event::End`: a writer without
/// indentation writes `</`, the tag and `>`.
#[verifier::external_body]
fn end_tag(tag: &str) -> (r: String)
    ensures
        r@ == seq!['<', '/'] + tag@ + seq!['>'],
{
    let mut writer = quick_xml::Writer::new(Vec::new());
    let _ = writer.write_event(quick_xml::events::Event::End(quick_xml::events::BytesEnd::new(tag)));
    String::from_utf8(writer.into_inner()).unwrap_or_default()
}

fn write_children(cs: &Vec<XmlChild>, out: &mut String)
    ensures
        final(out)@ == old(out)@ + children_text(cs@),
    decreases cs@,
{
    let ghost start = out@;
    let mut i: usize = 0;
    proof {
        reveal_strlit("<");
        reveal_strlit("/>");
        reveal_strlit(">");
        reveal_strlit("</");
        assert(cs@.subrange(0, 0) =~= Seq::<XmlChild>::empty());
    }
    while i < cs.len()
        invariant
            i <= cs@.len(),
            out@ == start + children_text(cs@.subrange(0, i as int)),
        decreases cs@.len() - i,
    {
        let ghost next = cs@.subrange(0, i + 1);
        let ghost before = out@;
        proof {
            assert(next.drop_last() =~= cs@.subrange(0, i as int));
            assert(next.last() == cs@[i as int]);
        }
        match &cs[i] {
            XmlChild::Text(t) => {
                out.append(t.as_str());
            },
            XmlChild::Element(n) => {
                proof {
                    broadcast use vstd::std_specs::vec::axiom_vec_decreases_to_view;

                    assert(decreases_to!(cs@ => cs@[i as int]));
                    assert(decreases_to!(cs@[i as int] => *n));
                    assert(decreases_to!(*n => n.children));
                    assert(decreases_to!(n.children => n.children@));
                }
                if n.children.len() == 0 {
                    let t = empty_tag(n.tag.as_str(), &n.attributes);
                    out.append(t.as_str());
                } else {
                    let t = start_tag(n.tag.as_str(), &n.attributes);
                    out.append(t.as_str());
                    write_children(&n.children, out);
                    let e = end_tag(n.tag.as_str());
                    out.append(e.as_str());
                }
            },
        }
        proof {
            assert(out@ =~= start + children_text(next));
        }
        i = i + 1;
    }
    assert(cs@.subrange(0, i as int) =~= cs@);
}

impl XmlNode {
    /// An element with the given tag, no attributes and no children.
    pub fn new(tag: &str) -> (n: XmlNode)
        ensures
            n.tag@ == tag@,
            n.attributes@.len() == 0,
            attrs_view(n.attributes@) == Seq::<(Seq<char>, Seq<char>)>::empty(),
            n.children@.len() == 0,
    {
        let n = XmlNode { tag: tag.to_owned(), attributes: Vec::new(), children: Vec::new() };
        assert(attrs_view(n.attributes@) =~= Seq::<(Seq<char>, Seq<char>)>::empty());
        n
    }

    /// Sets the attribute `key` to `value`: an attribute already there keeps its place
    /// and takes the new value; otherwise the attribute is appended.
    pub fn push_attribute(&mut self, key: &str, value: String)
        ensures
            attrs_view(final(self).attributes@) == attrs_with(
                attrs_view(old(self).attributes@),
                key@,
                value@,
            ),
            final(self).tag == old(self).tag,
            final(self).children == old(self).children,
    {
        let ghost a = attrs_view(self.attributes@);
        let wanted = key.to_owned();
        let mut i: usize = 0;
        while i < self.attributes.len()
            invariant
                i <= self.attributes@.len(),
                a == attrs_view(self.attributes@),
                a == attrs_view(old(self).attributes@),
                wanted@ == key@,
                self.tag == old(self).tag,
                self.children == old(self).children,
                forall|j: int| 0 <= j < i ==> #[trigger] a[j].0 != key@,
            decreases self.attributes@.len() - i,
        {
            if self.attributes[i].0 == wanted {
                let k = self.attributes[i].0.clone();
                self.attributes.set(i, (k, value));
                proof {
                    assert(attrs_view(self.attributes@) =~= a.update(i as int, (key@, value@)));
                    lemma_attrs_with_found(a, key@, value@, i as int);
                }
                return;
            }
            i = i + 1;
        }
        self.attributes.push((key.to_owned(), value));
        proof {
            lemma_attrs_with_new_key(a, key@, value@);
            assert(attrs_view(self.attributes@) =~= a.push((key@, value@)));
        }
    }

    /// The value of the attribute `key`, if the element has one.
    pub fn get_attribute(&self, key: &str) -> (r: Option<&String>)
        ensures
            r is None <==> forall|i: int|
                0 <= i < self.attributes@.len() ==> #[trigger] self.attributes@[i].0@ != key@,
            r matches Some(v) ==> exists|i: int|
                0 <= i < self.attributes@.len() && #[trigger] self.attributes@[i].0@ == key@
                    && self.attributes@[i].1 == *v,
    {
        let wanted = key.to_owned();
        let mut i: usize = 0;
        while i < self.attributes.len()
            invariant
                i <= self.attributes@.len(),
                wanted@ == key@,
                forall|j: int| 0 <= j < i ==> #[trigger] self.attributes@[j].0@ != key@,
            decreases self.attributes@.len() - i,
        {
            if self.attributes[i].0 == wanted {
                return Some(&self.attributes[i].1);
            }
            i = i + 1;
        }
        None
    }

    pub fn push_child(&mut self, child: XmlChild)
        ensures
            final(self).children@ == old(self).children@.push(child),
            final(self).tag == old(self).tag,
            final(self).attributes == old(self).attributes,
    {
        self.children.push(child);
    }

    /// Puts `child` before every other child. The children are moved into a new list.
    pub fn prepend_child(&mut self, child: XmlChild)
        ensures
            final(self).children@ == seq![child] + old(self).children@,
            final(self).tag == old(self).tag,
            final(self).attributes == old(self).attributes,
    {
        self.children.insert(0, child);
    }

    /// The element as text.
    pub fn write(&self) -> (r: String)
        ensures
            r@ == node_text(*self),
    {
        let mut out = String::new();
        if self.children.len() == 0 {
            let t = empty_tag(self.tag.as_str(), &self.attributes);
            out.append(t.as_str());
        } else {
            let t = start_tag(self.tag.as_str(), &self.attributes);
            out.append(t.as_str());
            write_children(&self.children, &mut out);
            let e = end_tag(self.tag.as_str());
            out.append(e.as_str());
        }
        proof {
            let cs = seq![XmlChild::Element(*self)];
            assert(cs.drop_last() =~= Seq::<XmlChild>::empty());
            assert(children_text(cs.drop_last()) =~= Seq::<char>::empty());
            assert(out@ =~= node_text(*self));
        }
        out
    }
}

} // verus!
