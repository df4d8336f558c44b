//! From an event stream back to the element tree that it stands for.
use crate::errors::ParseError;
use crate::markup::{
    lemma_nodes_events_concat, nodes_events, Attribute, Element, ElementView, EventView, Node,
    NodeView,
};
use crate::models::views;
use vstd::prelude::*;

verus! {

broadcast use {
    vstd::seq::axiom_seq_index_decreases,
    vstd::seq::axiom_seq_subrange_decreases,
};

/// One step of an event stream.
#[derive(Debug, Clone, PartialEq, Eq)]
pub enum MarkupEvent {
    Start { name: String, attributes: Vec<Attribute> },
    Text(String),
    End,
}

impl View for MarkupEvent {
    type V = EventView;

    open spec fn view(&self) -> EventView {
        match self {
            MarkupEvent::Start { name, attributes } => EventView::Start {
                name: name@,
                attributes: views(attributes@),
            },
            MarkupEvent::Text(t) => EventView::Text(t@),
            MarkupEvent::End => EventView::End,
        }
    }
}

/// `acc` put before the nodes of a parse that went on from where `acc` ended.
pub open spec fn prepend(acc: Seq<NodeView>, rest: Option<(Seq<NodeView>, int)>) -> Option<
    (Seq<NodeView>, int),
> {
    match rest {
        Some((nodes, end)) => Some((acc + nodes, end)),
        None => None,
    }
}

/// The sibling nodes that the events from `pos` on stand for, and the place
/// where they end: at the end tag of the element that holds them, or at the
/// end of the events. `None` where an element is opened and never closed.
pub open spec fn parse_nodes(events: Seq<EventView>, pos: int) -> Option<(Seq<NodeView>, int)>
    decreases events.len() - pos,
{
    if pos < 0 || pos >= events.len() {
        Some((Seq::empty(), pos))
    } else {
        match events[pos] {
            EventView::End => Some((Seq::empty(), pos)),
            EventView::Text(t) => prepend(seq![NodeView::Text(t)], parse_nodes(events, pos + 1)),
            EventView::Start { name, attributes } => match parse_nodes(events, pos + 1) {
                Some((children, close)) => if pos < close < events.len() {
                    prepend(
                        seq![NodeView::Element(ElementView { name, attributes, children })],
                        parse_nodes(events, close + 1),
                    )
                } else {
                    None
                },
                None => None,
            },
        }
    }
}

/// The element that the events stand for, if they are the events of one
/// element and nothing else.
pub open spec fn parse_document(events: Seq<EventView>) -> Option<ElementView> {
    match parse_nodes(events, 0) {
        Some((nodes, end)) => if end == events.len() && nodes.len() == 1 {
            match nodes[0] {
                NodeView::Element(e) => Some(e),
                NodeView::Text(_) => None,
            }
        } else {
            None
        },
        None => None,
    }
}

/// What was parsed is what the events say: the nodes found from `pos` have
/// exactly the events between `pos` and the place where the parse ended,
/// and it ended at an end tag or at the end of the events.
pub proof fn lemma_parse_is_sound(events: Seq<EventView>, pos: int)
    requires
        0 <= pos <= events.len(),
    ensures
        parse_nodes(events, pos) matches Some((nodes, end)) ==> {
            &&& pos <= end <= events.len()
            &&& events.subrange(pos, end) == nodes_events(nodes)
            &&& end < events.len() ==> events[end] == EventView::End
        },
    decreases events.len() - pos,
{
    if pos >= events.len() {
        assert(events.subrange(pos, pos) =~= Seq::<EventView>::empty());
    } else {
        match events[pos] {
            EventView::End => {
                assert(events.subrange(pos, pos) =~= Seq::<EventView>::empty());
            },
            EventView::Text(t) => {
                lemma_parse_is_sound(events, pos + 1);
                match parse_nodes(events, pos + 1) {
                    Some((rest, end)) => {
                        let first = seq![NodeView::Text(t)];
                        lemma_nodes_events_concat(first, rest);
                        lemma_single_node_events(NodeView::Text(t));
                        assert(events.subrange(pos, end) =~= seq![events[pos]] + events.subrange(
                            pos + 1,
                            end,
                        ));
                    },
                    None => {},
                }
            },
            EventView::Start { name, attributes } => {
                lemma_parse_is_sound(events, pos + 1);
                match parse_nodes(events, pos + 1) {
                    Some((children, close)) => {
                        if pos < close < events.len() {
                            lemma_parse_is_sound(events, close + 1);
                            match parse_nodes(events, close + 1) {
                                Some((rest, end)) => {
                                    let e = NodeView::Element(
                                        ElementView { name, attributes, children },
                                    );
                                    lemma_nodes_events_concat(seq![e], rest);
                                    lemma_single_node_events(e);
                                    assert(events.subrange(pos, end) =~= (seq![events[pos]]
                                        + events.subrange(pos + 1, close) + seq![events[close]])
                                        + events.subrange(close + 1, end));
                                },
                                None => {},
                            }
                        }
                    },
                    None => {},
                }
            },
        }
    }
}

/// A run of one node has the events of that node.
pub proof fn lemma_single_node_events(node: NodeView)
    ensures
        nodes_events(seq![node]) == node.events(),
{
    let one = seq![node];
    assert(one.drop_last() =~= Seq::<NodeView>::empty());
    assert(nodes_events(one.drop_last()) =~= Seq::<EventView>::empty());
    assert(nodes_events(one) =~= node.events());
}

/// The events of a run of nodes begin with the events of its first node.
pub proof fn lemma_nodes_events_front(nodes: Seq<NodeView>)
    requires
        nodes.len() > 0,
    ensures
        nodes_events(nodes) == nodes[0].events() + nodes_events(nodes.subrange(1, nodes.len() as int)),
{
    let rest = nodes.subrange(1, nodes.len() as int);
    lemma_nodes_events_concat(seq![nodes[0]], rest);
    lemma_single_node_events(nodes[0]);
    assert(seq![nodes[0]] + rest =~= nodes);
}

/// Events that are the events of some nodes parse to those nodes: where
/// the events from `pos` on begin with the events of `nodes` and go on with
/// an end tag or with nothing, the parse from `pos` finds `nodes` and ends
/// right behind them.
pub proof fn lemma_parse_is_complete(events: Seq<EventView>, pos: int, nodes: Seq<NodeView>)
    requires
        0 <= pos,
        pos + nodes_events(nodes).len() <= events.len(),
        events.subrange(pos, pos + nodes_events(nodes).len()) == nodes_events(nodes),
        pos + nodes_events(nodes).len() < events.len() ==> events[pos + nodes_events(nodes).len()]
            == EventView::End,
    ensures
        parse_nodes(events, pos) == Some((nodes, pos + nodes_events(nodes).len())),
    decreases nodes,
{
    let all = nodes_events(nodes);
    let end = pos + all.len();
    if nodes.len() == 0 {
        assert(nodes =~= Seq::<NodeView>::empty());
    } else {
        let rest = nodes.subrange(1, nodes.len() as int);
        lemma_nodes_events_front(nodes);
        let head = nodes[0].events();
        assert(forall|i: int| 0 <= i < all.len() ==> events[pos + i] == #[trigger] all[i]) by {
            assert forall|i: int| 0 <= i < all.len() implies events[pos + i] == #[trigger] all[i] by {
                assert(events.subrange(pos, end)[i] == events[pos + i]);
            }
        }
        match nodes[0] {
            NodeView::Text(t) => {
                assert(all[0] == EventView::Text(t));
                assert(events.subrange(pos + 1, end) =~= nodes_events(rest)) by {
                    assert forall|i: int| 0 <= i < nodes_events(rest).len() implies events.subrange(
                        pos + 1,
                        end,
                    )[i] == nodes_events(rest)[i] by {
                        assert(all[i + 1] == nodes_events(rest)[i]);
                    }
                }
                lemma_parse_is_complete(events, pos + 1, rest);
                assert(seq![NodeView::Text(t)] + rest =~= nodes);
            },
            NodeView::Element(e) => {
                let inner = nodes_events(e.children);
                let close = pos + 1 + inner.len();
                assert(head =~= seq![e.start()] + inner + seq![EventView::End]);
                assert(all[0] == e.start());
                assert(all[1 + inner.len() as int] == EventView::End);
                assert(events.subrange(pos + 1, close) =~= inner) by {
                    assert forall|i: int| 0 <= i < inner.len() implies events.subrange(
                        pos + 1,
                        close,
                    )[i] == inner[i] by {
                        assert(all[i + 1] == inner[i]);
                    }
                }
                lemma_parse_is_complete(events, pos + 1, e.children);
                assert(events.subrange(close + 1, end) =~= nodes_events(rest)) by {
                    assert forall|i: int| 0 <= i < nodes_events(rest).len() implies events.subrange(
                        close + 1,
                        end,
                    )[i] == nodes_events(rest)[i] by {
                        assert(all[i + 2 + inner.len() as int] == nodes_events(rest)[i]);
                    }
                }
                lemma_parse_is_complete(events, close + 1, rest);
                assert(seq![NodeView::Element(e)] + rest =~= nodes);
                assert(ElementView {
                    name: e.name,
                    attributes: e.attributes,
                    children: e.children,
                } == e);
            },
        }
    }
}

/// The events of an element parse to that element.
pub proof fn lemma_events_parse_back(element: ElementView)
    ensures
        parse_document(element.events()) == Some(element),
{
    let nodes = seq![NodeView::Element(element)];
    lemma_single_node_events(NodeView::Element(element));
    let events = element.events();
    assert(events.subrange(0, events.len() as int) =~= events);
    lemma_parse_is_complete(events, 0, nodes);
}

/// Events that parse to an element are the events of that element.
pub proof fn lemma_parsed_document_events(events: Seq<EventView>)
    ensures
        parse_document(events) matches Some(e) ==> e.events() == events,
{
    lemma_parse_is_sound(events, 0);
    match parse_nodes(events, 0) {
        Some((nodes, end)) => {
            if end == events.len() && nodes.len() == 1 {
                assert(nodes =~= seq![nodes[0]]);
                lemma_single_node_events(nodes[0]);
                assert(events.subrange(0, events.len() as int) =~= events);
            }
        },
        None => {},
    }
}

/// Two elements with the same events are the same element.
pub proof fn lemma_events_determine_element(a: ElementView, b: ElementView)
    requires
        a.events() == b.events(),
    ensures
        a == b,
{
    lemma_events_parse_back(a);
    lemma_events_parse_back(b);
}

/// The views of the nodes of `nodes`, in order.
pub open spec fn node_views(nodes: Seq<Node>) -> Seq<NodeView> {
    Seq::new(nodes.len(), |i: int| nodes[i]@)
}

fn copy_attributes(attributes: &Vec<Attribute>) -> (copy: Vec<Attribute>)
    ensures
        views(copy@) == views(attributes@),
{
    let mut copy: Vec<Attribute> = Vec::new();
    let mut i: usize = 0;
    while i < attributes.len()
        invariant
            i <= attributes.len(),
            copy@.len() == i,
            forall|j: int| 0 <= j < i ==> (#[trigger] copy@[j])@ == attributes@[j]@,
        decreases attributes.len() - i,
    {
        copy.push(
            Attribute { name: attributes[i].name.clone(), value: attributes[i].value.clone() },
        );
        i = i + 1;
    }
    assert(views(copy@) =~= views(attributes@));
    copy
}

/// The sibling nodes that the events from `start` on stand for, and the
/// place where they end.
pub fn parse_siblings(events: &Vec<MarkupEvent>, start: usize) -> (r: Option<(Vec<Node>, usize)>)
    ensures
        match r {
            Some((nodes, end)) => parse_nodes(views(events@), start as int) == Some(
                (node_views(nodes@), end as int),
            ) && start <= end && (start <= events.len() ==> end <= events.len()),
            None => parse_nodes(views(events@), start as int) is None,
        },
    decreases events.len() - start,
{
    let ghost evs = views(events@);
    let mut out: Vec<Node> = Vec::new();
    if start >= events.len() {
        assert(node_views(out@) =~= Seq::<NodeView>::empty());
        return Some((out, start));
    }
    let mut pos: usize = start;
    assert(prepend(node_views(out@), parse_nodes(evs, pos as int)) =~= parse_nodes(
        evs,
        start as int,
    )) by {
        match parse_nodes(evs, pos as int) {
            Some((nodes, end)) => {
                assert(node_views(out@) + nodes =~= nodes);
            },
            None => {},
        }
    }
    while pos < events.len()
        invariant
            start <= pos <= events.len(),
            evs == views(events@),
            parse_nodes(evs, start as int) == prepend(
                node_views(out@),
                parse_nodes(evs, pos as int),
            ),
        decreases events.len() - pos,
    {
        let ghost acc = node_views(out@);
        proof {
            lemma_parse_is_sound(evs, pos + 1);
        }
        match &events[pos] {
            MarkupEvent::End => {
                assert(acc + Seq::<NodeView>::empty() =~= acc);
                return Some((out, pos));
            },
            MarkupEvent::Text(text) => {
                out.push(Node::Text(text.clone()));
                proof {
                    let one = seq![NodeView::Text(text@)];
                    assert(node_views(out@) =~= acc + one);
                    match parse_nodes(evs, pos + 1) {
                        Some((rest, end)) => {
                            assert(acc + (one + rest) =~= (acc + one) + rest);
                        },
                        None => {},
                    }
                }
                pos = pos + 1;
            },
            MarkupEvent::Start { name, attributes } => {
                match parse_siblings(events, pos + 1) {
                    None => {
                        return None;
                    },
                    Some((children, close)) => {
                        if close >= events.len() {
                            return None;
                        }
                        let element = Element {
                            name: name.clone(),
                            attributes: copy_attributes(attributes),
                            children,
                        };
                        proof {
                            lemma_parse_is_sound(evs, close + 1);
                            let want = ElementView {
                                name: name@,
                                attributes: views(attributes@),
                                children: node_views(children@),
                            };
                            assert(element@.attributes =~= want.attributes);
                            assert(element@.children =~= want.children);
                            assert(element@ == want);
                        }
                        out.push(Node::Element(element));
                        proof {
                            let one = seq![NodeView::Element(element@)];
                            assert(node_views(out@) =~= acc + one);
                            match parse_nodes(evs, close + 1) {
                                Some((rest, end)) => {
                                    assert(acc + (one + rest) =~= (acc + one) + rest);
                                },
                                None => {},
                            }
                        }
                        pos = close + 1;
                    },
                }
            },
        }
    }
    assert(node_views(out@) + Seq::<NodeView>::empty() =~= node_views(out@));
    Some((out, pos))
}

/// Some element has exactly these events.
pub open spec fn is_element_stream(events: Seq<EventView>) -> bool {
    exists|e: ElementView| #[trigger] e.events() == events
}

/// The element that the events stand for. It is found exactly where the
/// events are those of one element; the element found has these events.
pub fn parse_events(events: &Vec<MarkupEvent>) -> (r: Result<Element, ParseError>)
    ensures
        r is Ok <==> is_element_stream(views(events@)),
        r matches Ok(e) ==> e@.events() == views(events@),
        r matches Err(e) ==> e == ParseError::Unbalanced,
{
    let ghost evs = views(events@);
    proof {
        lemma_parsed_document_events(evs);
        if is_element_stream(evs) {
            let e = choose|e: ElementView| #[trigger] e.events() == evs;
            lemma_events_parse_back(e);
        }
    }
    match parse_siblings(events, 0) {
        None => Err(ParseError::Unbalanced),
        Some((mut nodes, end)) => {
            if end != events.len() || nodes.len() != 1 {
                return Err(ParseError::Unbalanced);
            }
            let ghost only = nodes@[0];
            match nodes.pop() {
                Some(Node::Element(element)) => {
                    assert(element@ == parse_document(evs)->0);
                    Ok(element)
                },
                _ => Err(ParseError::Unbalanced),
            }
        },
    }
}

} // verus!
