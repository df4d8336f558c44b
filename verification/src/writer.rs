//! The streaming writer: element trees go out as start-tag, text and end-tag
//! events to an `xml` event writer over an in-memory sink.
use crate::errors::{to_xml_write_error, XmlWriteError};
use crate::markup::{
    nodes_events, Attribute, AttributeView, Element, ElementView, EventView, Node, NodeView,
};
use crate::models::views;
use vstd::prelude::*;

verus! {

broadcast use vstd::std_specs::vec::axiom_vec_index_decreases;

/// The event writer of the `xml` crate, carried through as it is.
#[verifier::external_type_specification]
#[verifier::external_body]
#[verifier::reject_recursive_types(W)]
pub struct ExEventWriter<W>(::xml::writer::EventWriter<W>);

/// The bytes that the sink of the writer holds: what `EventWriter::inner_ref`
/// shows.
pub uninterp spec fn sink_bytes(writer: ::xml::writer::EventWriter<Vec<u8>>) -> Seq<u8>;

/// The bytes that the sink of the writer holds once `EventWriter::write` has
/// been given `events` one after the other: a start tag as a start-element
/// event with its name and its attributes, text as a characters event, an
/// end tag as an end-element event without a name.
pub uninterp spec fn sink_after(
    writer: ::xml::writer::EventWriter<Vec<u8>>,
    events: Seq<EventView>,
) -> Seq<u8>;

/// The number of elements that the writer has open: those whose start tag
/// it has accepted and whose end tag it has not, which is the length of the
/// stack of element names that it keeps.
pub uninterp spec fn open_depth(writer: ::xml::writer::EventWriter<Vec<u8>>) -> nat;

/// The bytes that the sink of a new writer holds once the writer has been
/// given `events` one after the other, for a writer made with the default
/// configuration and `perform_indent` as `indent` says.
pub uninterp spec fn rendered(indent: bool, events: Seq<EventView>) -> Seq<u8>;

/// The start tag of `name` with `attributes` as an event.
pub open spec fn start_event(name: Seq<char>, attributes: Seq<AttributeView>) -> EventView {
    EventView::Start { name, attributes }
}

/// `EventWriter::new_with_config` over an empty `Vec<u8>`, with the default
/// configuration and `perform_indent` as given. The sink is the vector that
/// was handed in, so it holds nothing; what it holds after no further event
/// is what it holds; no element is open; and what the writer makes of any
/// events is what a new writer of this configuration makes of them, since
/// nothing but the configuration goes into a new writer.
#[verifier::external_body]
fn new_event_writer(indent: bool) -> (writer: ::xml::writer::EventWriter<Vec<u8>>)
    ensures
        sink_bytes(writer) == Seq::<u8>::empty(),
        sink_after(writer, Seq::empty()) == sink_bytes(writer),
        open_depth(writer) == 0,
        forall|events: Seq<EventView>| #[trigger]
            sink_after(writer, events) == rendered(indent, events),
{
    ::xml::writer::EventWriter::new_with_config(
        Vec::new(),
        ::xml::writer::EmitterConfig::new().perform_indent(indent),
    )
}

/// `EventWriter::write` of a start-element event with the given name and
/// attributes. The writer accepts it: a start tag fails only where the sink
/// does, and a vector takes every byte. The element is then open. The sink
/// is only added to: the writer reaches its sink through `write_all` and
/// `write!`, which append to a vector. The writer is the one that it was
/// with this event behind it: what the sink holds after any further events
/// is what it would have held after this event and those, since a write
/// depends on the writer and the event alone.
#[verifier::external_body]
fn emit_start(
    writer: &mut ::xml::writer::EventWriter<Vec<u8>>,
    name: &str,
    attributes: &Vec<Attribute>,
) -> (r: Result<(), ::xml::writer::Error>)
    ensures
        r is Ok,
        open_depth(*final(writer)) == open_depth(*old(writer)) + 1,
        sink_bytes(*old(writer)).is_prefix_of(sink_bytes(*final(writer))),
        sink_after(*final(writer), Seq::empty()) == sink_bytes(*final(writer)),
        forall|rest: Seq<EventView>| #[trigger]
            sink_after(*old(writer), seq![start_event(name@, views(attributes@))] + rest)
                == sink_after(*final(writer), rest),
{
    let mut event = ::xml::writer::XmlEvent::start_element(name);
    for attribute in attributes.iter() {
        event = event.attr(attribute.name.as_str(), attribute.value.as_str());
    }
    writer.write(event)
}

/// `EventWriter::write` of a characters event with the given text. The
/// writer accepts it: text fails only where the sink does. The elements
/// that are open stay open. The sink is only added to. The writer is the
/// one that it was with this event behind it.
#[verifier::external_body]
fn emit_characters(writer: &mut ::xml::writer::EventWriter<Vec<u8>>, text: &str) -> (r: Result<
    (),
    ::xml::writer::Error,
>)
    ensures
        r is Ok,
        open_depth(*final(writer)) == open_depth(*old(writer)),
        sink_bytes(*old(writer)).is_prefix_of(sink_bytes(*final(writer))),
        sink_after(*final(writer), Seq::empty()) == sink_bytes(*final(writer)),
        forall|rest: Seq<EventView>| #[trigger]
            sink_after(*old(writer), seq![EventView::Text(text@)] + rest) == sink_after(
                *final(writer),
                rest,
            ),
{
    writer.write(::xml::writer::XmlEvent::characters(text))
}

/// `EventWriter::write` of an end-element event without a name. The writer
/// accepts it exactly where an element is open: it takes the name from its
/// stack of open elements and refuses where the stack is empty. The element
/// is then closed. The sink is only added to. Where the event is accepted,
/// the writer is the one that it was with this event behind it.
#[verifier::external_body]
fn emit_end(writer: &mut ::xml::writer::EventWriter<Vec<u8>>) -> (r: Result<
    (),
    ::xml::writer::Error,
>)
    ensures
        r is Ok <==> open_depth(*old(writer)) > 0,
        r is Ok ==> open_depth(*final(writer)) == open_depth(*old(writer)) - 1,
        sink_bytes(*old(writer)).is_prefix_of(sink_bytes(*final(writer))),
        sink_after(*final(writer), Seq::empty()) == sink_bytes(*final(writer)),
        r is Ok ==> forall|rest: Seq<EventView>| #[trigger]
            sink_after(*old(writer), seq![EventView::End] + rest) == sink_after(
                *final(writer),
                rest,
            ),
{
    writer.write(::xml::writer::XmlEvent::end_element())
}

/// `EventWriter::into_inner`: the sink with the bytes written so far.
#[verifier::external_body]
fn into_sink(writer: ::xml::writer::EventWriter<Vec<u8>>) -> (bytes: Vec<u8>)
    ensures
        bytes@ == sink_bytes(writer),
{
    writer.into_inner()
}

/// An event writer over an in-memory sink, together with the record of the
/// events that it has accepted.
pub struct XmlWriter {
    inner: ::xml::writer::EventWriter<Vec<u8>>,
    accepted: Ghost<Seq<EventView>>,
}

/// The writer `before` has accepted `events` and is now `after`: the record
/// has grown by the events, and whatever is written next, the sink will
/// hold what it would have held had `before` been given the events and then
/// the rest.
pub open spec fn took(before: XmlWriter, after: XmlWriter, events: Seq<EventView>) -> bool {
    &&& after.log() == before.log() + events
    &&& forall|rest: Seq<EventView>| #[trigger]
        after.bytes_after(rest) == before.bytes_after(events + rest)
}

/// What one call that writes `element` leaves behind. The call succeeds:
/// a writer over a vector refuses no start tag and no text, and no end tag
/// of an element that it has opened. The writer has accepted all the events
/// of the element, the sink holds what the writer before the call makes of
/// them, and the elements that were open before are the ones open after.
/// The sink is only added to.
pub open spec fn wrote(
    before: XmlWriter,
    after: XmlWriter,
    element: ElementView,
    r: Result<(), XmlWriteError>,
) -> bool {
    &&& r is Ok
    &&& took(before, after, element.events())
    &&& after.bytes() == before.bytes_after(element.events())
    &&& after.depth() == before.depth()
    &&& before.bytes().is_prefix_of(after.bytes())
    &&& after.is_settled()
}

/// Events accepted one run after the other are accepted as one run.
pub proof fn lemma_took_chain(
    first: XmlWriter,
    second: XmlWriter,
    third: XmlWriter,
    a: Seq<EventView>,
    b: Seq<EventView>,
)
    requires
        took(first, second, a),
        took(second, third, b),
    ensures
        took(first, third, a + b),
{
    assert(third.log() =~= first.log() + (a + b));
    assert forall|rest: Seq<EventView>| #[trigger]
        third.bytes_after(rest) == first.bytes_after((a + b) + rest) by {
        assert(third.bytes_after(rest) == second.bytes_after(b + rest));
        assert(second.bytes_after(b + rest) == first.bytes_after(a + (b + rest)));
        assert(a + (b + rest) =~= (a + b) + rest);
    }
}

/// After a run of events the sink holds what the writer before them makes
/// of the run.
pub proof fn lemma_took_bytes(before: XmlWriter, after: XmlWriter, events: Seq<EventView>)
    requires
        took(before, after, events),
        after.is_settled(),
    ensures
        after.bytes() == before.bytes_after(events),
{
    assert(after.bytes_after(Seq::empty()) == before.bytes_after(events + Seq::empty()));
    assert(events + Seq::<EventView>::empty() =~= events);
}

impl XmlWriter {
    /// The events that the writer has accepted so far, oldest first.
    pub closed spec fn log(&self) -> Seq<EventView> {
        self.accepted@
    }

    /// The bytes that the writer has put into its sink so far.
    pub closed spec fn bytes(&self) -> Seq<u8> {
        sink_bytes(self.inner)
    }

    /// The bytes that the sink will hold once the writer has been given
    /// `events` one after the other.
    pub closed spec fn bytes_after(&self, events: Seq<EventView>) -> Seq<u8> {
        sink_after(self.inner, events)
    }

    /// What the sink holds after no further event is what it holds.
    pub open spec fn is_settled(&self) -> bool {
        self.bytes_after(Seq::empty()) == self.bytes()
    }

    /// The number of elements that the writer has open.
    pub closed spec fn depth(&self) -> nat {
        open_depth(self.inner)
    }

    /// A writer that has accepted nothing and written nothing yet and has
    /// no element open; `indent` asks for one element per line. What it
    /// makes of events depends on `indent` and the events alone.
    pub fn new(indent: bool) -> (writer: Self)
        ensures
            writer.log() == Seq::<EventView>::empty(),
            writer.bytes() == Seq::<u8>::empty(),
            writer.depth() == 0,
            writer.is_settled(),
            forall|events: Seq<EventView>| #[trigger]
                writer.bytes_after(events) == rendered(indent, events),
    {
        XmlWriter { inner: new_event_writer(indent), accepted: Ghost(Seq::empty()) }
    }

    /// Ends the writing and hands out the sink: the bytes that the writer
    /// has put into it, all of them and in the order they were written.
    pub fn into_bytes(self) -> (bytes: Vec<u8>)
        ensures
            bytes@ == self.bytes(),
    {
        into_sink(self.inner)
    }

    /// Writes the start tag of `name` with `attributes`. The writer accepts
    /// it, and the element is open afterwards.
    pub fn write_start(&mut self, name: &str, attributes: &Vec<Attribute>) -> (r: Result<
        (),
        XmlWriteError,
    >)
        ensures
            r is Ok,
            final(self).depth() == old(self).depth() + 1,
            took(*old(self), *final(self), seq![start_event(name@, views(attributes@))]),
            final(self).bytes() == old(self).bytes_after(
                seq![start_event(name@, views(attributes@))],
            ),
            old(self).bytes().is_prefix_of(final(self).bytes()),
            final(self).is_settled(),
    {
        let ghost entry = *self;
        let r = to_xml_write_error(name, emit_start(&mut self.inner, name, attributes));
        proof {
            self.accepted@ = self.accepted@ + seq![start_event(name@, views(attributes@))];
            lemma_took_bytes(entry, *self, seq![start_event(name@, views(attributes@))]);
        }
        r
    }

    /// Writes `text` as character data inside the open element `tag`. The
    /// writer accepts it.
    pub fn write_text(&mut self, tag: &str, text: &str) -> (r: Result<(), XmlWriteError>)
        ensures
            r is Ok,
            final(self).depth() == old(self).depth(),
            took(*old(self), *final(self), seq![EventView::Text(text@)]),
            final(self).bytes() == old(self).bytes_after(seq![EventView::Text(text@)]),
            old(self).bytes().is_prefix_of(final(self).bytes()),
            final(self).is_settled(),
    {
        let ghost entry = *self;
        let r = to_xml_write_error(tag, emit_characters(&mut self.inner, text));
        proof {
            self.accepted@ = self.accepted@ + seq![EventView::Text(text@)];
            lemma_took_bytes(entry, *self, seq![EventView::Text(text@)]);
        }
        r
    }

    /// Writes the end tag of the open element `tag`. The writer accepts it
    /// exactly where an element is open, and that element is closed
    /// afterwards; where none is open, the error names `tag` and the writer
    /// has accepted nothing.
    pub fn write_end(&mut self, tag: &str) -> (r: Result<(), XmlWriteError>)
        ensures
            r is Ok <==> old(self).depth() > 0,
            r is Ok ==> final(self).depth() == old(self).depth() - 1,
            r is Ok ==> took(*old(self), *final(self), seq![EventView::End]),
            r is Ok ==> final(self).bytes() == old(self).bytes_after(seq![EventView::End]),
            r matches Err(e) ==> final(self).log() == old(self).log() && e.element() == tag@,
            old(self).bytes().is_prefix_of(final(self).bytes()),
            final(self).is_settled(),
    {
        let ghost entry = *self;
        let r = to_xml_write_error(tag, emit_end(&mut self.inner));
        if r.is_ok() {
            proof {
                self.accepted@ = self.accepted@ + seq![EventView::End];
                lemma_took_bytes(entry, *self, seq![EventView::End]);
            }
        }
        r
    }

    /// Writes `element` with all that it holds: its start tag, its children
    /// in order, its end tag.
    pub fn write_element(&mut self, element: &Element) -> (r: Result<(), XmlWriteError>)
        ensures
            wrote(*old(self), *final(self), element@, r),
        decreases element,
    {
        let ghost entry = *self;
        let ghost view = element@;
        let name = element.name.as_str();
        assert(view.attributes =~= views(element.attributes@));
        assert(view.start() == start_event(name@, views(element.attributes@)));
        match self.write_start(name, &element.attributes) {
            Err(e) => {
                return Err(e);
            },
            Ok(()) => {},
        }
        let mut i: usize = 0;
        proof {
            assert(view.children.take(0) =~= Seq::<NodeView>::empty());
            assert(seq![view.start()] + nodes_events(view.children.take(0)) =~= seq![
                view.start(),
            ]);
        }
        while i < element.children.len()
            invariant
                i <= element.children.len(),
                view == element@,
                name@ == view.name,
                entry == *old(self),
                entry.bytes().is_prefix_of(self.bytes()),
                self.is_settled(),
                self.depth() == entry.depth() + 1,
                took(
                    entry,
                    *self,
                    seq![view.start()] + nodes_events(view.children.take(i as int)),
                ),
            decreases element.children.len() - i,
        {
            let ghost mid = *self;
            let ghost done = seq![view.start()] + nodes_events(view.children.take(i as int));
            proof {
                lemma_child_events(view, i as int);
            }
            match &element.children[i] {
                Node::Text(text) => {
                    match self.write_text(name, text.as_str()) {
                        Err(e) => {
                            return Err(e);
                        },
                        Ok(()) => {
                            proof {
                                lemma_took_chain(
                                    entry,
                                    mid,
                                    *self,
                                    done,
                                    seq![EventView::Text(text@)],
                                );
                                assert(done + seq![EventView::Text(text@)] =~= seq![view.start()]
                                    + nodes_events(view.children.take(i + 1)));
                            }
                        },
                    }
                },
                Node::Element(child) => {
                    match self.write_element(child) {
                        Err(e) => {
                            return Err(e);
                        },
                        Ok(()) => {
                            proof {
                                lemma_took_chain(entry, mid, *self, done, child@.events());
                                assert(done + child@.events() =~= seq![view.start()]
                                    + nodes_events(view.children.take(i + 1)));
                            }
                        },
                    }
                },
            }
            i = i + 1;
        }
        let ghost mid = *self;
        let ghost done = seq![view.start()] + nodes_events(view.children);
        assert(view.children.take(i as int) =~= view.children);
        match self.write_end(name) {
            Err(e) => Err(e),
            Ok(()) => {
                proof {
                    lemma_took_chain(entry, mid, *self, done, seq![EventView::End]);
                    assert(done + seq![EventView::End] =~= view.events());
                    lemma_took_bytes(entry, *self, view.events());
                }
                Ok(())
            },
        }
    }
}

/// The events of the first `i + 1` children are those of the first `i`
/// followed by those of child `i`.
pub proof fn lemma_child_events(element: ElementView, i: int)
    requires
        0 <= i < element.children.len(),
    ensures
        nodes_events(element.children.take(i + 1)) == nodes_events(element.children.take(i))
            + element.children[i].events(),
{
    let next = element.children.take(i + 1);
    assert(next.drop_last() =~= element.children.take(i));
    assert(next.last() == element.children[i]);
}

} // verus!
