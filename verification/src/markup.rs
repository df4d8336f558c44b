//! The markup model: elements, text nodes and the event stream that an
//! element tree stands for.
use crate::models::{opt_view, views};
use vstd::prelude::*;

verus! {

broadcast use {
    vstd::std_specs::vec::axiom_vec_index_decreases,
    vstd::seq::axiom_seq_index_decreases,
    vstd::seq::axiom_seq_subrange_decreases,
};

/// One `name="value"` pair on a start tag.
#[derive(Debug, Clone, PartialEq, Eq)]
pub struct Attribute {
    pub name: String,
    pub value: String,
}

/// A child of an element: a nested element or character data.
#[derive(Debug, PartialEq, Eq)]
pub enum Node {
    Element(Element),
    Text(String),
}

/// An element with its attributes and its children, in document order.
#[derive(Debug, PartialEq, Eq)]
pub struct Element {
    pub name: String,
    pub attributes: Vec<Attribute>,
    pub children: Vec<Node>,
}

#[verifier::ext_equal]
pub struct AttributeView {
    pub name: Seq<char>,
    pub value: Seq<char>,
}

#[verifier::ext_equal]
pub enum NodeView {
    Element(ElementView),
    Text(Seq<char>),
}

#[verifier::ext_equal]
pub struct ElementView {
    pub name: Seq<char>,
    pub attributes: Seq<AttributeView>,
    pub children: Seq<NodeView>,
}

/// One step of the event stream of a document.
#[verifier::ext_equal]
pub enum EventView {
    Start { name: Seq<char>, attributes: Seq<AttributeView> },
    Text(Seq<char>),
    End,
}

impl View for Attribute {
    type V = AttributeView;

    open spec fn view(&self) -> AttributeView {
        AttributeView { name: self.name@, value: self.value@ }
    }
}

impl View for Node {
    type V = NodeView;

    open spec fn view(&self) -> NodeView
        decreases self,
    {
        match self {
            Node::Element(e) => NodeView::Element(e.view()),
            Node::Text(t) => NodeView::Text(t@),
        }
    }
}

impl View for Element {
    type V = ElementView;

    open spec fn view(&self) -> ElementView
        decreases self,
    {
        ElementView {
            name: self.name@,
            attributes: Seq::new(self.attributes@.len(), |i: int| self.attributes@[i]@),
            children: Seq::new(
                self.children@.len(),
                |i: int|
                    if 0 <= i < self.children.len() {
                        self.children[i].view()
                    } else {
                        NodeView::Text(Seq::empty())
                    },
            ),
        }
    }
}

impl NodeView {
    /// The events of one node: a text node is one event, an element is its
    /// start tag, the events of its children and its end tag.
    pub open spec fn events(self) -> Seq<EventView>
        decreases self, 0int,
    {
        match self {
            NodeView::Text(t) => seq![EventView::Text(t)],
            NodeView::Element(e) => seq![
                EventView::Start { name: e.name, attributes: e.attributes },
            ] + nodes_events(e.children) + seq![EventView::End],
        }
    }
}

/// The events of a run of sibling nodes, in order.
pub open spec fn nodes_events(nodes: Seq<NodeView>) -> Seq<EventView>
    decreases nodes, 1int,
{
    if nodes.len() == 0 {
        Seq::empty()
    } else {
        nodes_events(nodes.drop_last()) + nodes.last().events()
    }
}

impl ElementView {
    /// The start tag of the element as an event.
    pub open spec fn start(self) -> EventView {
        EventView::Start { name: self.name, attributes: self.attributes }
    }

    /// The event stream of the element: start tag, children, end tag.
    pub open spec fn events(self) -> Seq<EventView> {
        NodeView::Element(self).events()
    }
}

/// The events of two runs of siblings, one after the other, are the events
/// of the first run followed by those of the second.
pub proof fn lemma_nodes_events_concat(a: Seq<NodeView>, b: Seq<NodeView>)
    ensures
        nodes_events(a + b) == nodes_events(a) + nodes_events(b),
    decreases b.len(),
{
    if b.len() == 0 {
        assert(a + b =~= a);
    } else {
        lemma_nodes_events_concat(a, b.drop_last());
        assert((a + b).drop_last() =~= a + b.drop_last());
        assert((a + b).last() == b.last());
        assert(nodes_events(a + b) =~= nodes_events(a) + nodes_events(b));
    }
}

/// An element without attributes that holds `text` and nothing else.
pub open spec fn text_element(tag: Seq<char>, text: Seq<char>) -> ElementView {
    ElementView { name: tag, attributes: Seq::empty(), children: seq![NodeView::Text(text)] }
}

/// An element without attributes that holds `children`.
pub open spec fn wrapper_element(tag: Seq<char>, children: Seq<NodeView>) -> ElementView {
    ElementView { name: tag, attributes: Seq::empty(), children }
}

/// The child that an optional text field stands for: none when the field
/// is absent, one text element when it is present.
pub open spec fn opt_text_child(tag: Seq<char>, text: Option<Seq<char>>) -> Seq<NodeView> {
    match text {
        Some(t) => seq![NodeView::Element(text_element(tag, t))],
        None => Seq::empty(),
    }
}

/// The child that an optional element stands for: none when it is absent,
/// the element when it is present.
pub open spec fn opt_child(element: Option<ElementView>) -> Seq<NodeView> {
    match element {
        Some(e) => seq![NodeView::Element(e)],
        None => Seq::empty(),
    }
}

/// The text of a truth value: `true` or `false`.
pub open spec fn bool_text(b: bool) -> Seq<char> {
    if b {
        "true"@
    } else {
        "false"@
    }
}

/// One text element named `tag` for each item of `texts`, in order.
pub open spec fn text_children(tag: Seq<char>, texts: Seq<Seq<char>>) -> Seq<NodeView> {
    Seq::new(texts.len(), |i: int| NodeView::Element(text_element(tag, texts[i])))
}

impl Element {
    /// An element named `name` without attributes or children.
    pub fn new(name: &str) -> (e: Element)
        ensures
            e@ == wrapper_element(name@, Seq::empty()),
    {
        let e = Element {
            name: String::from_str(name),
            attributes: Vec::new(),
            children: Vec::new(),
        };
        assert(e@.attributes =~= Seq::empty());
        assert(e@.children =~= Seq::empty());
        e
    }

    /// Adds the attribute `name="value"` after those that are there.
    pub fn attr(&mut self, name: &str, value: &str)
        ensures
            final(self)@ == (ElementView {
                attributes: old(self)@.attributes.push(
                    AttributeView { name: name@, value: value@ },
                ),
                ..old(self)@
            }),
    {
        let ghost before = self@;
        self.attributes.push(
            Attribute { name: String::from_str(name), value: String::from_str(value) },
        );
        assert(self@.attributes =~= before.attributes.push(
            AttributeView { name: name@, value: value@ },
        ));
        assert(self@.children =~= before.children);
    }

    /// Adds `child` after the children that are there.
    pub fn push(&mut self, child: Node)
        ensures
            final(self)@ == (ElementView {
                children: old(self)@.children.push(child@),
                ..old(self)@
            }),
    {
        let ghost before = self@;
        self.children.push(child);
        assert(self@.attributes =~= before.attributes);
        assert(self@.children =~= before.children.push(child@));
    }

    /// Adds `text` as character data after the children that are there.
    pub fn push_text(&mut self, text: &str)
        ensures
            final(self)@ == (ElementView {
                children: old(self)@.children.push(NodeView::Text(text@)),
                ..old(self)@
            }),
    {
        self.push(Node::Text(String::from_str(text)));
    }

    /// Adds the element `child` after the children that are there.
    pub fn push_element(&mut self, child: Element)
        ensures
            final(self)@ == (ElementView {
                children: old(self)@.children.push(NodeView::Element(child@)),
                ..old(self)@
            }),
    {
        self.push(Node::Element(child));
    }

    /// Adds an element named `tag` that holds `text` after the children
    /// that are there.
    pub fn push_simple_tag(&mut self, tag: &str, text: &str)
        ensures
            final(self)@ == (ElementView {
                children: old(self)@.children.push(
                    NodeView::Element(text_element(tag@, text@)),
                ),
                ..old(self)@
            }),
            final(self)@.children == old(self)@.children + seq![
                NodeView::Element(text_element(tag@, text@)),
            ],
    {
        let ghost before = self@;
        assert(before.children.push(NodeView::Element(text_element(tag@, text@)))
            =~= before.children + seq![NodeView::Element(text_element(tag@, text@))]);
        let mut child = Element::new(tag);
        child.push_text(text);
        assert(child@.children =~= seq![NodeView::Text(text@)]);
        self.push_element(child);
    }
    /// Adds an element named `tag` that holds the text, if there is any;
    /// an absent text adds nothing.
    pub fn push_optional_tag(&mut self, tag: &str, text: &Option<String>)
        ensures
            final(self)@ == (ElementView {
                children: old(self)@.children + opt_text_child(tag@, opt_view(*text)),
                ..old(self)@
            }),
    {
        let ghost before = self@;
        match text {
            Some(t) => {
                self.push_simple_tag(tag, t.as_str());
                assert(self@.children =~= before.children + opt_text_child(
                    tag@,
                    opt_view(*text),
                ));
            },
            None => {
                assert(self@.children =~= before.children + opt_text_child(
                    tag@,
                    opt_view(*text),
                ));
            },
        }
    }

    /// Adds one element named `tag` for each text, in order.
    pub fn push_simple_tags(&mut self, tag: &str, texts: &Vec<String>)
        ensures
            final(self)@ == (ElementView {
                children: old(self)@.children + text_children(tag@, views(texts@)),
                ..old(self)@
            }),
    {
        let ghost before = self@;
        let mut i: usize = 0;
        assert(self@.children =~= before.children + text_children(tag@, views(texts@)).take(0));
        while i < texts.len()
            invariant
                i <= texts.len(),
                self@.name == before.name,
                self@.attributes == before.attributes,
                self@.children == before.children + text_children(tag@, views(texts@)).take(
                    i as int,
                ),
            decreases texts.len() - i,
        {
            self.push_simple_tag(tag, texts[i].as_str());
            assert(self@.children =~= before.children + text_children(tag@, views(texts@)).take(
                i + 1,
            ));
            i = i + 1;
        }
        assert(text_children(tag@, views(texts@)).take(i as int) =~= text_children(
            tag@,
            views(texts@),
        ));
    }
    /// Adds `child` after the children that are there, if there is one.
    pub fn push_optional_element(&mut self, child: Option<Element>)
        ensures
            final(self)@ == (ElementView {
                children: old(self)@.children + opt_child(opt_view(child)),
                ..old(self)@
            }),
    {
        let ghost before = self@;
        let ghost part = opt_child(opt_view(child));
        match child {
            Some(c) => {
                self.push_element(c);
                assert(self@.children =~= before.children + part);
            },
            None => {
                assert(self@.children =~= before.children + part);
            },
        }
    }
}

} // verus!
