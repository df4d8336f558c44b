//! From the bytes of a document to its events and to its root element. The
//! bytes are parsed by the `xml` event reader; what it hands out is turned
//! into the events of the markup model.
use crate::errors::{ParseError, ParseErrorView};
use crate::markup::{Attribute, Element, EventView};
use crate::models::{opt_view, views};
use crate::parser::{is_element_stream, parse_events, MarkupEvent};
use vstd::prelude::*;
use xml::reader::{EventReader, XmlEvent};

verus! {

/// What the `xml` event reader makes of the bytes of a document: its events
/// in order, each as the markup model has it and `None` for an event that
/// the model has no place for; or, where the reader fails, its own account
/// of the first error.
pub uninterp spec fn document_events(bytes: Seq<u8>) -> Result<Seq<Option<EventView>>, Seq<char>>;

/// The events, as the values they stand for.
pub open spec fn optional_views(events: Seq<Option<MarkupEvent>>) -> Seq<Option<EventView>> {
    Seq::new(events.len(), |i: int| opt_view(events[i]))
}

/// The event that stands for `text`.
fn text_event(text: String) -> (r: Result<Option<MarkupEvent>, String>)
    ensures
        r == Ok::<_, String>(Some(MarkupEvent::Text(text))),
{
    Ok(Some(MarkupEvent::Text(text)))
}

/// `EventReader::new` over the bytes, and its iterator taken to the end of
/// the document or to the first error. A start tag keeps the local names of
/// the element and of its attributes and the attributes' values; an end tag
/// keeps nothing; characters, character data and white space are text;
/// every other event is `None`. An error is given as the reader prints it.
/// The contract only names the outcome: `document_events` of the bytes.
#[verifier::external_body]
fn read_all(bytes: &[u8]) -> (r: Result<Vec<Option<MarkupEvent>>, String>)
    ensures
        match r {
            Ok(events) => document_events(bytes@) == Ok::<_, Seq<char>>(optional_views(events@)),
            Err(message) => document_events(bytes@) == Err::<Seq<Option<EventView>>, _>(message@),
        },
{
    EventReader::new(bytes).into_iter().map(|event| match event {
        Ok(XmlEvent::StartElement { name, attributes, .. }) => Ok(Some(MarkupEvent::Start {
            name: name.local_name,
            attributes: attributes.into_iter().map(|a| Attribute { name: a.name.local_name, value: a.value }).collect(),
        })),
        Ok(XmlEvent::EndElement { .. }) => Ok(Some(MarkupEvent::End)),
        Ok(XmlEvent::Characters(text)) => text_event(text),
        Ok(XmlEvent::CData(text)) => text_event(text),
        Ok(XmlEvent::Whitespace(text)) => text_event(text),
        Ok(_) => Ok(None),
        Err(error) => Err(format!("{}", error)),
    }).collect()
}

/// The events among `events` that the markup model has a place for, in
/// order.
pub open spec fn present(events: Seq<Option<EventView>>) -> Seq<EventView>
    decreases events.len(),
{
    if events.len() == 0 {
        Seq::empty()
    } else {
        match events.last() {
            Some(e) => present(events.drop_last()).push(e),
            None => present(events.drop_last()),
        }
    }
}

/// What is kept of what the reader made of a document: the events that the
/// markup model has a place for, or the reader's error as a syntax error.
pub open spec fn kept_events(read: Result<Seq<Option<EventView>>, Seq<char>>) -> Result<
    Seq<EventView>,
    ParseErrorView,
> {
    match read {
        Ok(events) => Ok(present(events)),
        Err(message) => Err(ParseErrorView::Syntax { message }),
    }
}

/// The events that were read, or the error, as the values they stand for.
pub open spec fn events_view(events: Result<Vec<MarkupEvent>, ParseError>) -> Result<
    Seq<EventView>,
    ParseErrorView,
> {
    match events {
        Ok(list) => Ok(views(list@)),
        Err(e) => Err(e@),
    }
}

/// Keeps of what the reader made of a document what the markup model has a
/// place for.
pub fn keep_events(read: Result<Vec<Option<MarkupEvent>>, String>) -> (r: Result<
    Vec<MarkupEvent>,
    ParseError,
>)
    ensures
        match read {
            Ok(events) => events_view(r) == kept_events(Ok(optional_views(events@))),
            Err(message) => events_view(r) == kept_events(Err(message@)),
        },
{
    match read {
        Err(message) => Err(ParseError::Syntax { message }),
        Ok(events) => {
            let ghost all = optional_views(events@);
            let mut kept: Vec<MarkupEvent> = Vec::new();
            assert(all.take(0) =~= Seq::<Option<EventView>>::empty());
            assert(views(kept@) =~= present(all.take(0)));
            for event in it: events.into_iter()
                invariant
                    all == optional_views(it.seq()),
                    views(kept@) == present(all.take(it.index() as int)),
            {
                let ghost before = views(kept@);
                let ghost next = all.take(it.index() + 1);
                assert(next.drop_last() =~= all.take(it.index() as int));
                assert(next.last() == opt_view(event));
                match event {
                    Some(e) => {
                        kept.push(e);
                        assert(views(kept@) =~= before.push(e@));
                    },
                    None => {},
                }
            }
            assert(all.take(all.len() as int) =~= all);
            Ok(kept)
        },
    }
}

/// The events of the document in `bytes`, in order: what the reader makes
/// of the bytes, without the events that the markup model has no place
/// for; or the reader's error as `ParseError::Syntax`.
pub fn read_events(bytes: &[u8]) -> (r: Result<Vec<MarkupEvent>, ParseError>)
    ensures
        events_view(r) == kept_events(document_events(bytes@)),
{
    keep_events(read_all(bytes))
}

/// The root element that was read from a document: the events are those of
/// one element, which is the element handed out; otherwise the error says
/// that they are not.
pub fn root_of(events: Result<Vec<MarkupEvent>, ParseError>) -> (r: Result<Element, ParseError>)
    ensures
        match events {
            Err(e) => r == Err::<Element, _>(e),
            Ok(list) => {
                &&& r is Ok <==> is_element_stream(views(list@))
                &&& r matches Ok(e) ==> e@.events() == views(list@)
                &&& r matches Err(e) ==> e == ParseError::Unbalanced
            },
        },
{
    match events {
        Err(e) => Err(e),
        Ok(list) => parse_events(&list),
    }
}

/// The root element of the document in `bytes`: with `events` for what
/// `read_events` makes of the bytes, the outcome is that of `root_of`.
pub fn read_element(bytes: &[u8]) -> (r: Result<Element, ParseError>)
    ensures
        match kept_events(document_events(bytes@)) {
            Err(e) => r matches Err(x) && x@ == e,
            Ok(list) => {
                &&& r is Ok <==> is_element_stream(list)
                &&& r matches Ok(e) ==> e@.events() == list
                &&& r matches Err(e) ==> e == ParseError::Unbalanced
            },
        },
{
    root_of(read_events(bytes))
}

} // verus!
