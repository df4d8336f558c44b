//! Finding the parts of an element by name: the first child of a name, all
//! children of a name, an attribute, the text. What has another name is
//! passed over, so that a reader is not troubled by what it does not know.
use crate::markup::{
    opt_text_child, text_children, text_element, AttributeView, Element, ElementView, Node,
    NodeView,
};
use crate::errors::ParseErrorView;
use vstd::prelude::*;

verus! {

/// The first element among `children` that is named `tag`.
pub open spec fn first_child(children: Seq<NodeView>, tag: Seq<char>) -> Option<ElementView>
    decreases children.len(),
{
    if children.len() == 0 {
        None
    } else {
        match children[0] {
            NodeView::Element(e) => if e.name == tag {
                Some(e)
            } else {
                first_child(children.subrange(1, children.len() as int), tag)
            },
            NodeView::Text(_) => first_child(children.subrange(1, children.len() as int), tag),
        }
    }
}

/// The node, if it is an element named `tag`.
pub open spec fn named_element(node: NodeView, tag: Seq<char>) -> Seq<ElementView> {
    match node {
        NodeView::Element(e) => if e.name == tag {
            seq![e]
        } else {
            Seq::empty()
        },
        NodeView::Text(_) => Seq::empty(),
    }
}

/// The elements among `children` that are named `tag`, in order.
pub open spec fn children_named(children: Seq<NodeView>, tag: Seq<char>) -> Seq<ElementView>
    decreases children.len(),
{
    if children.len() == 0 {
        Seq::empty()
    } else {
        children_named(children.drop_last(), tag) + named_element(children.last(), tag)
    }
}

/// The text of a node: its characters if it is text, nothing if it is an
/// element.
pub open spec fn node_text(node: NodeView) -> Seq<char> {
    match node {
        NodeView::Text(t) => t,
        NodeView::Element(_) => Seq::empty(),
    }
}

/// The text that stands directly among `children`, joined in order.
pub open spec fn text_of(children: Seq<NodeView>) -> Seq<char>
    decreases children.len(),
{
    if children.len() == 0 {
        Seq::empty()
    } else {
        text_of(children.drop_last()) + node_text(children.last())
    }
}

/// The value of the first attribute named `name`.
pub open spec fn attribute_value(attributes: Seq<AttributeView>, name: Seq<char>) -> Option<
    Seq<char>,
>
    decreases attributes.len(),
{
    if attributes.len() == 0 {
        None
    } else if attributes[0].name == name {
        Some(attributes[0].value)
    } else {
        attribute_value(attributes.subrange(1, attributes.len() as int), name)
    }
}

/// Every node of `part` is an element named `tag`.
pub open spec fn all_named(part: Seq<NodeView>, tag: Seq<char>) -> bool {
    forall|i: int|
        0 <= i < part.len() ==> ((#[trigger] part[i]) matches NodeView::Element(c) && c.name
            == tag)
}

/// The first child of a name in two runs of nodes is the one in the first
/// run, or else the one in the second.
pub proof fn lemma_first_child_concat(a: Seq<NodeView>, b: Seq<NodeView>, tag: Seq<char>)
    ensures
        first_child(a + b, tag) == if first_child(a, tag) is Some {
            first_child(a, tag)
        } else {
            first_child(b, tag)
        },
    decreases a.len(),
{
    if a.len() == 0 {
        assert(a + b =~= b);
    } else {
        let rest = a.subrange(1, a.len() as int);
        assert((a + b).subrange(1, (a + b).len() as int) =~= rest + b);
        assert((a + b)[0] == a[0]);
        lemma_first_child_concat(rest, b, tag);
    }
}

/// The children of a name in two runs of nodes are those in the first run
/// followed by those in the second.
pub proof fn lemma_children_named_concat(a: Seq<NodeView>, b: Seq<NodeView>, tag: Seq<char>)
    ensures
        children_named(a + b, tag) == children_named(a, tag) + children_named(b, tag),
    decreases b.len(),
{
    if b.len() == 0 {
        assert(a + b =~= a);
        assert(children_named(a, tag) + children_named(b, tag) =~= children_named(a, tag));
    } else {
        assert((a + b).drop_last() =~= a + b.drop_last());
        assert((a + b).last() == b.last());
        lemma_children_named_concat(a, b.drop_last(), tag);
        assert(children_named(a + b, tag) =~= children_named(a, tag) + children_named(b, tag));
    }
}

/// A run of elements that all have another name holds no child of the name.
pub proof fn lemma_other_name(part: Seq<NodeView>, own: Seq<char>, tag: Seq<char>)
    requires
        all_named(part, own),
        own != tag,
    ensures
        first_child(part, tag) is None,
        children_named(part, tag) == Seq::<ElementView>::empty(),
    decreases part.len(),
{
    if part.len() > 0 {
        let front = part.subrange(1, part.len() as int);
        assert(forall|i: int| 0 <= i < front.len() ==> front[i] == part[i + 1]);
        lemma_other_name(front, own, tag);
        let back = part.drop_last();
        assert(forall|i: int| 0 <= i < back.len() ==> back[i] == part[i]);
        lemma_other_name(back, own, tag);
        assert(part[0] is Element);
        assert(part.last() == part[part.len() - 1]);
        assert(children_named(part, tag) =~= Seq::<ElementView>::empty());
    }
}

/// A run of elements that all have the name: the first of them is the
/// first child of the name, and all of them are the children of the name.
pub proof fn lemma_own_name(part: Seq<NodeView>, elements: Seq<ElementView>, tag: Seq<char>)
    requires
        part.len() == elements.len(),
        forall|i: int|
            0 <= i < part.len() ==> #[trigger] part[i] == NodeView::Element(elements[i])
                && elements[i].name == tag,
    ensures
        children_named(part, tag) == elements,
        first_child(part, tag) == if elements.len() > 0 {
            Some(elements[0])
        } else {
            None
        },
    decreases part.len(),
{
    if part.len() > 0 {
        let back = part.drop_last();
        lemma_own_name(back, elements.drop_last(), tag);
        assert(children_named(part, tag) =~= elements);
    } else {
        assert(children_named(part, tag) =~= elements);
    }
}

/// The text of a single text node is its characters.
pub proof fn lemma_text_of_one(text: Seq<char>)
    ensures
        text_of(seq![NodeView::Text(text)]) == text,
{
    let one = seq![NodeView::Text(text)];
    assert(one.drop_last() =~= Seq::<NodeView>::empty());
    assert(text_of(one.drop_last()) =~= Seq::<char>::empty());
    assert(one.last() == NodeView::Text(text));
    assert(text_of(one) =~= text);
}

/// The text of the first child named `tag`.
pub open spec fn child_text(children: Seq<NodeView>, tag: Seq<char>) -> Option<Seq<char>> {
    match first_child(children, tag) {
        Some(e) => Some(text_of(e.children)),
        None => None,
    }
}

/// The text of the node, if it is an element named `tag`.
pub open spec fn named_text(node: NodeView, tag: Seq<char>) -> Seq<Seq<char>> {
    match node {
        NodeView::Element(e) => if e.name == tag {
            seq![text_of(e.children)]
        } else {
            Seq::empty()
        },
        NodeView::Text(_) => Seq::empty(),
    }
}

/// The texts of the children named `tag`, in order.
pub open spec fn texts_named(children: Seq<NodeView>, tag: Seq<char>) -> Seq<Seq<char>>
    decreases children.len(),
{
    if children.len() == 0 {
        Seq::empty()
    } else {
        texts_named(children.drop_last(), tag) + named_text(children.last(), tag)
    }
}

/// The first child of a name is one of the children.
pub proof fn lemma_first_child_is_a_child(children: Seq<NodeView>, tag: Seq<char>)
    ensures
        first_child(children, tag) matches Some(c) ==> exists|i: int|
            0 <= i < children.len() && #[trigger] children[i] == NodeView::Element(c),
    decreases children.len(),
{
    if children.len() > 0 {
        let rest = children.subrange(1, children.len() as int);
        lemma_first_child_is_a_child(rest, tag);
        match first_child(rest, tag) {
            Some(c) => {
                let i = choose|i: int| 0 <= i < rest.len() && #[trigger] rest[i] == NodeView::Element(c);
                assert(children[i + 1] == rest[i]);
            },
            None => {},
        }
    }
}

/// The texts of a name in two runs of nodes are those in the first run
/// followed by those in the second.
pub proof fn lemma_texts_named_concat(a: Seq<NodeView>, b: Seq<NodeView>, tag: Seq<char>)
    ensures
        texts_named(a + b, tag) == texts_named(a, tag) + texts_named(b, tag),
    decreases b.len(),
{
    if b.len() == 0 {
        assert(a + b =~= a);
        assert(texts_named(a, tag) + texts_named(b, tag) =~= texts_named(a, tag));
    } else {
        assert((a + b).drop_last() =~= a + b.drop_last());
        assert((a + b).last() == b.last());
        lemma_texts_named_concat(a, b.drop_last(), tag);
        assert(texts_named(a + b, tag) =~= texts_named(a, tag) + texts_named(b, tag));
    }
}

/// A run of elements that all have another name holds no text of the name.
pub proof fn lemma_other_name_texts(part: Seq<NodeView>, own: Seq<char>, tag: Seq<char>)
    requires
        all_named(part, own),
        own != tag,
    ensures
        texts_named(part, tag) == Seq::<Seq<char>>::empty(),
    decreases part.len(),
{
    if part.len() > 0 {
        let back = part.drop_last();
        assert(forall|i: int| 0 <= i < back.len() ==> back[i] == part[i]);
        lemma_other_name_texts(back, own, tag);
        assert(part.last() == part[part.len() - 1]);
        assert(texts_named(part, tag) =~= Seq::<Seq<char>>::empty());
    }
}

/// One text element for each text, read back, gives the texts.
pub proof fn lemma_text_children_read_back(tag: Seq<char>, texts: Seq<Seq<char>>)
    ensures
        texts_named(text_children(tag, texts), tag) == texts,
        all_named(text_children(tag, texts), tag),
    decreases texts.len(),
{
    let part = text_children(tag, texts);
    if texts.len() > 0 {
        lemma_text_children_read_back(tag, texts.drop_last());
        assert(part.drop_last() =~= text_children(tag, texts.drop_last()));
        lemma_text_of_one(texts.last());
        assert(part.last() == NodeView::Element(text_element(tag, texts.last())));
        assert(texts_named(part, tag) =~= texts);
    } else {
        assert(texts_named(part, tag) =~= texts);
    }
}

/// An optional text element, read back, gives the optional text.
pub proof fn lemma_opt_text_child_read_back(tag: Seq<char>, text: Option<Seq<char>>)
    ensures
        child_text(opt_text_child(tag, text), tag) == text,
        all_named(opt_text_child(tag, text), tag),
{
    match text {
        Some(t) => {
            lemma_text_of_one(t);
            let part = opt_text_child(tag, text);
            assert(part.subrange(1, part.len() as int) =~= Seq::<NodeView>::empty());
        },
        None => {},
    }
}

/// A single element is the first child of its own name.
pub proof fn lemma_first_child_of_one(e: ElementView)
    ensures
        first_child(seq![NodeView::Element(e)], e.name) == Some(e),
        all_named(seq![NodeView::Element(e)], e.name),
{
}

/// What a run of nodes reads as, where `read` says of each node whether it
/// counts and what it reads as: the values of the nodes that count, in
/// order, or the error of the first of them that cannot be read.
pub open spec fn read_each<T>(
    nodes: Seq<NodeView>,
    read: spec_fn(NodeView) -> Option<Result<T, ParseErrorView>>,
) -> Result<Seq<T>, ParseErrorView>
    decreases nodes.len(),
{
    if nodes.len() == 0 {
        Ok(Seq::empty())
    } else {
        match read_each(nodes.drop_last(), read) {
            Err(e) => Err(e),
            Ok(before) => match read(nodes.last()) {
                None => Ok(before),
                Some(Err(e)) => Err(e),
                Some(Ok(x)) => Ok(before.push(x)),
            },
        }
    }
}

/// Nodes that each read as one value read as those values, in order.
pub proof fn lemma_read_each_of_all<T>(
    nodes: Seq<NodeView>,
    read: spec_fn(NodeView) -> Option<Result<T, ParseErrorView>>,
    items: Seq<T>,
)
    requires
        nodes.len() == items.len(),
        forall|i: int| 0 <= i < nodes.len() ==> read(#[trigger] nodes[i]) == Some(
            Ok::<T, ParseErrorView>(items[i]),
        ),
    ensures
        read_each(nodes, read) == Ok::<Seq<T>, ParseErrorView>(items),
    decreases nodes.len(),
{
    if nodes.len() > 0 {
        lemma_read_each_of_all(nodes.drop_last(), read, items.drop_last());
        assert(items.drop_last().push(items.last()) =~= items);
    } else {
        assert(items =~= Seq::<T>::empty());
    }
}

/// An error among the first `j` nodes is the error of the whole run.
pub proof fn lemma_read_each_error<T>(
    nodes: Seq<NodeView>,
    read: spec_fn(NodeView) -> Option<Result<T, ParseErrorView>>,
    j: int,
)
    requires
        0 <= j <= nodes.len(),
        read_each(nodes.take(j), read) is Err,
    ensures
        read_each(nodes, read) == read_each(nodes.take(j), read),
    decreases nodes.len(),
{
    if j == nodes.len() {
        assert(nodes.take(j) =~= nodes);
    } else {
        assert(nodes.drop_last().take(j) =~= nodes.take(j));
        lemma_read_each_error(nodes.drop_last(), read, j);
    }
}

/// Looking for a name in a run of nodes that is followed by elements of
/// one name: elements of another name change nothing, and elements of the
/// name itself are what is found where the run before them has none.
pub proof fn lemma_lookup_step(a: Seq<NodeView>, b: Seq<NodeView>, own: Seq<char>, tag: Seq<char>)
    requires
        all_named(b, own),
    ensures
        tag != own ==> first_child(a + b, tag) == first_child(a, tag) && texts_named(a + b, tag)
            == texts_named(a, tag) && children_named(a + b, tag) == children_named(a, tag),
        tag == own && first_child(a, tag) is None ==> first_child(a + b, tag) == first_child(
            b,
            tag,
        ),
        tag == own && texts_named(a, tag).len() == 0 ==> texts_named(a + b, tag) == texts_named(
            b,
            tag,
        ),
        tag == own && children_named(a, tag).len() == 0 ==> children_named(a + b, tag)
            == children_named(b, tag),
{
    lemma_first_child_concat(a, b, tag);
    lemma_texts_named_concat(a, b, tag);
    lemma_children_named_concat(a, b, tag);
    if tag != own {
        lemma_other_name(b, own, tag);
        lemma_other_name_texts(b, own, tag);
        assert(texts_named(a, tag) + Seq::<Seq<char>>::empty() =~= texts_named(a, tag));
        assert(children_named(a, tag) + Seq::<ElementView>::empty() =~= children_named(a, tag));
    } else {
        if texts_named(a, tag).len() == 0 {
            assert(texts_named(a, tag) + texts_named(b, tag) =~= texts_named(b, tag));
        }
        if children_named(a, tag).len() == 0 {
            assert(children_named(a, tag) + children_named(b, tag) =~= children_named(b, tag));
        }
    }
}

impl Element {
    /// The first child element named `tag`.
    pub fn first_child(&self, tag: &str) -> (r: Option<&Element>)
        ensures
            match r {
                Some(e) => first_child(self@.children, tag@) == Some(e@) && exists|i: int|
                    0 <= i < self.children@.len() && #[trigger] self.children@[i]
                        == Node::Element(*e),
                None => first_child(self@.children, tag@) is None,
            },
    {
        let wanted = String::from_str(tag);
        let ghost all = self@.children;
        let mut i: usize = 0;
        assert(all.skip(0) =~= all);
        while i < self.children.len()
            invariant
                i <= self.children.len(),
                all == self@.children,
                all.len() == self.children.len(),
                wanted@ == tag@,
                first_child(all, tag@) == first_child(all.skip(i as int), tag@),
            decreases self.children.len() - i,
        {
            let ghost rest = all.skip(i as int);
            assert(rest.subrange(1, rest.len() as int) =~= all.skip(i + 1));
            assert(rest[0] == all[i as int]);
            assert(all[i as int] == self.children[i as int]@);
            match &self.children[i] {
                Node::Element(e) => {
                    if e.name == wanted {
                        return Some(e);
                    }
                },
                Node::Text(_) => {},
            }
            i = i + 1;
        }
        None
    }

    /// The child elements named `tag`, in order.
    pub fn children_named(&self, tag: &str) -> (r: Vec<&Element>)
        ensures
            r@.len() == children_named(self@.children, tag@).len(),
            forall|i: int|
                0 <= i < r@.len() ==> (#[trigger] r@[i])@ == children_named(
                    self@.children,
                    tag@,
                )[i],
    {
        let wanted = String::from_str(tag);
        let ghost all = self@.children;
        let mut out: Vec<&Element> = Vec::new();
        let mut i: usize = 0;
        assert(all.take(0) =~= Seq::<NodeView>::empty());
        while i < self.children.len()
            invariant
                i <= self.children.len(),
                all == self@.children,
                all.len() == self.children.len(),
                wanted@ == tag@,
                out@.len() == children_named(all.take(i as int), tag@).len(),
                forall|j: int|
                    0 <= j < out@.len() ==> (#[trigger] out@[j])@ == children_named(
                        all.take(i as int),
                        tag@,
                    )[j],
            decreases self.children.len() - i,
        {
            let ghost next = all.take(i + 1);
            assert(next.drop_last() =~= all.take(i as int));
            assert(next.last() == all[i as int]);
            assert(all[i as int] == self.children[i as int]@);
            match &self.children[i] {
                Node::Element(e) => {
                    if e.name == wanted {
                        out.push(e);
                    }
                },
                Node::Text(_) => {},
            }
            i = i + 1;
        }
        assert(all.take(i as int) =~= all);
        out
    }

    /// The text that stands directly in the element.
    pub fn text(&self) -> (r: String)
        ensures
            r@ == text_of(self@.children),
    {
        let ghost all = self@.children;
        let mut out = String::new();
        let mut i: usize = 0;
        assert(all.take(0) =~= Seq::<NodeView>::empty());
        while i < self.children.len()
            invariant
                i <= self.children.len(),
                all == self@.children,
                all.len() == self.children.len(),
                out@ == text_of(all.take(i as int)),
            decreases self.children.len() - i,
        {
            let ghost next = all.take(i + 1);
            assert(next.drop_last() =~= all.take(i as int));
            assert(next.last() == all[i as int]);
            assert(all[i as int] == self.children[i as int]@);
            match &self.children[i] {
                Node::Text(t) => {
                    out.append(t.as_str());
                },
                Node::Element(_) => {
                    assert(out@ + Seq::<char>::empty() =~= out@);
                },
            }
            i = i + 1;
        }
        assert(all.take(i as int) =~= all);
        out
    }

    /// The value of the first attribute named `name`.
    pub fn attribute(&self, name: &str) -> (r: Option<&String>)
        ensures
            match r {
                Some(v) => attribute_value(self@.attributes, name@) == Some(v@),
                None => attribute_value(self@.attributes, name@) is None,
            },
    {
        let wanted = String::from_str(name);
        let ghost all = self@.attributes;
        let mut i: usize = 0;
        assert(all.skip(0) =~= all);
        while i < self.attributes.len()
            invariant
                i <= self.attributes.len(),
                all == self@.attributes,
                all.len() == self.attributes.len(),
                wanted@ == name@,
                attribute_value(all, name@) == attribute_value(all.skip(i as int), name@),
            decreases self.attributes.len() - i,
        {
            let ghost rest = all.skip(i as int);
            assert(rest.subrange(1, rest.len() as int) =~= all.skip(i + 1));
            assert(rest[0] == all[i as int]);
            assert(all[i as int] == self.attributes[i as int]@);
            if self.attributes[i].name == wanted {
                return Some(&self.attributes[i].value);
            }
            i = i + 1;
        }
        None
    }

    /// The text of the first child element named `tag`.
    pub fn child_text(&self, tag: &str) -> (r: Option<String>)
        ensures
            crate::models::opt_view(r) == child_text(self@.children, tag@),
    {
        match self.first_child(tag) {
            Some(e) => Some(e.text()),
            None => None,
        }
    }

    /// The texts of the child elements named `tag`, in order.
    pub fn texts_named(&self, tag: &str) -> (r: Vec<String>)
        ensures
            crate::models::views(r@) == texts_named(self@.children, tag@),
    {
        let wanted = String::from_str(tag);
        let ghost all = self@.children;
        let mut out: Vec<String> = Vec::new();
        let mut i: usize = 0;
        assert(all.take(0) =~= Seq::<NodeView>::empty());
        assert(crate::models::views(out@) =~= texts_named(all.take(0), tag@));
        while i < self.children.len()
            invariant
                i <= self.children.len(),
                all == self@.children,
                all.len() == self.children.len(),
                wanted@ == tag@,
                crate::models::views(out@) == texts_named(all.take(i as int), tag@),
            decreases self.children.len() - i,
        {
            let ghost next = all.take(i + 1);
            let ghost before = crate::models::views(out@);
            assert(next.drop_last() =~= all.take(i as int));
            assert(next.last() == all[i as int]);
            assert(all[i as int] == self.children[i as int]@);
            match &self.children[i] {
                Node::Element(e) => {
                    if e.name == wanted {
                        out.push(e.text());
                        assert(crate::models::views(out@) =~= before + seq![text_of(e@.children)]);
                    } else {
                        assert(before + Seq::<Seq<char>>::empty() =~= before);
                    }
                },
                Node::Text(_) => {
                    assert(before + Seq::<Seq<char>>::empty() =~= before);
                },
            }
            i = i + 1;
        }
        assert(all.take(i as int) =~= all);
        out
    }
}

} // verus!
