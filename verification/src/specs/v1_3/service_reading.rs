//! Reading services of version 1.3 back from their markup.
use crate::errors::{result_view, ParseError, ParseErrorView};
use crate::lookup::{
    attribute_value, child_text, first_child, lemma_first_child_is_a_child, lemma_read_each_error,
    read_each, text_of, texts_named,
};
use crate::markup::{Element, ElementView, EventView, Node, NodeView};
use crate::models::{
    opt_view, opt_views, views, DataClassificationView, DataFlowTypeView, ExternalReferenceView,
    LicenseChoiceView, OrganizationalEntityView, PropertyView, ServiceView,
};
use crate::specs::v1_3::external_reference::{read_references, ExternalReferences};
use crate::specs::v1_3::license::{read_licenses, Licenses};
use crate::specs::v1_3::organization::{read_entity, OrganizationalEntity};
use crate::specs::v1_3::property::{read_properties, Properties};
use crate::parser::{
    lemma_events_parse_back, lemma_parsed_document_events, parse_document, MarkupEvent,
};
use crate::reader::{document_events, events_view, kept_events, read_events, root_of};
use crate::specs::v1_3::service::{DataClassification, Service, Services};
use vstd::prelude::*;

verus! {

broadcast use {
    vstd::std_specs::vec::axiom_vec_index_decreases,
    vstd::seq::axiom_seq_index_decreases,
    vstd::seq::axiom_seq_subrange_decreases,
};

/// What a truth value reads as: `true` and `false` are the two values,
/// no element is no value, any other text cannot be read.
pub open spec fn read_flag(children: Seq<NodeView>, tag: Seq<char>) -> Result<
    Option<bool>,
    ParseErrorView,
> {
    match child_text(children, tag) {
        None => Ok(None),
        Some(text) => if text == "true"@ {
            Ok(Some(true))
        } else if text == "false"@ {
            Ok(Some(false))
        } else {
            Err(ParseErrorView::InvalidBoolean { element: tag, text })
        },
    }
}

/// What a `classification` element reads as: the direction that its
/// attribute `flow` names, and its text. Without the attribute it cannot be
/// read.
pub open spec fn read_classification(e: ElementView) -> Result<
    DataClassificationView,
    ParseErrorView,
> {
    match attribute_value(e.attributes, "flow"@) {
        None => Err(ParseErrorView::MissingAttribute { element: "classification"@, name: "flow"@ }),
        Some(flow) => Ok(
            DataClassificationView {
                flow: DataFlowTypeView::parse(flow),
                classification: text_of(e.children),
            },
        ),
    }
}

/// What a node inside `data` reads as: a `classification` element counts,
/// anything else is passed over.
pub open spec fn classification_reader() -> spec_fn(NodeView) -> Option<
    Result<DataClassificationView, ParseErrorView>,
> {
    |n: NodeView|
        match n {
            NodeView::Element(e) => if e.name == "classification"@ {
                Some(read_classification(e))
            } else {
                None
            },
            NodeView::Text(_) => None,
        }
}

/// What is read of an optional child: nothing where the child is absent,
/// otherwise what the child reads as.
pub open spec fn read_optional<T>(
    child: Option<ElementView>,
    read: spec_fn(ElementView) -> Result<T, ParseErrorView>,
) -> Result<Option<T>, ParseErrorView> {
    match child {
        None => Ok(None),
        Some(e) => match read(e) {
            Ok(x) => Ok(Some(x)),
            Err(x) => Err(x),
        },
    }
}

/// The classifications of a service, read from its child `data`.
pub open spec fn read_data_field(children: Seq<NodeView>) -> Result<
    Option<Seq<DataClassificationView>>,
    ParseErrorView,
> {
    read_optional(
        first_child(children, "data"@),
        |w: ElementView| read_each(w.children, classification_reader()),
    )
}

/// The licenses of a service, read from its child `licenses`.
pub open spec fn read_licenses_field(children: Seq<NodeView>) -> Result<
    Option<Seq<LicenseChoiceView>>,
    ParseErrorView,
> {
    read_optional(first_child(children, "licenses"@), |w: ElementView| read_licenses(w))
}

/// The external references of a service, read from its child
/// `externalReferences`.
pub open spec fn read_references_field(children: Seq<NodeView>) -> Result<
    Option<Seq<ExternalReferenceView>>,
    ParseErrorView,
> {
    read_optional(first_child(children, "externalReferences"@), |w: ElementView| read_references(w))
}

/// The properties of a service, read from its child `properties`.
pub open spec fn read_properties_field(children: Seq<NodeView>) -> Result<
    Option<Seq<PropertyView>>,
    ParseErrorView,
> {
    read_optional(first_child(children, "properties"@), |w: ElementView| read_properties(w))
}

/// The provider of a service, read from its child `provider`.
pub open spec fn read_provider_field(children: Seq<NodeView>) -> Option<OrganizationalEntityView> {
    match first_child(children, "provider"@) {
        Some(p) => Some(read_entity(p)),
        None => None,
    }
}

/// The endpoints of a service, read from its child `endpoints`.
pub open spec fn read_endpoints_field(children: Seq<NodeView>) -> Option<Seq<Seq<char>>> {
    match first_child(children, "endpoints"@) {
        Some(w) => Some(texts_named(w.children, "endpoint"@)),
        None => None,
    }
}

/// What a `service` element reads as. Its identity is the attribute
/// `bom-ref`; each field is read from the first child of the field's name;
/// children and attributes of other names are passed over. It cannot be
/// read without a child `name`, with a truth value that is neither `true`
/// nor `false`, or with a part that cannot be read; the first of these, in
/// the order of the schema, is the error.
pub open spec fn read_service(e: ElementView) -> Result<ServiceView, ParseErrorView>
    decreases e, 1int,
{
    match child_text(e.children, "name"@) {
        None => Err(ParseErrorView::MissingElement { parent: "service"@, name: "name"@ }),
        Some(name) => match read_flag(e.children, "authenticated"@) {
            Err(x) => Err(x),
            Ok(authenticated) => match read_flag(e.children, "x-trust-boundary"@) {
                Err(x) => Err(x),
                Ok(x_trust_boundary) => match read_data_field(e.children) {
                    Err(x) => Err(x),
                    Ok(data) => match read_licenses_field(e.children) {
                        Err(x) => Err(x),
                        Ok(licenses) => match read_references_field(e.children) {
                            Err(x) => Err(x),
                            Ok(external_references) => match read_properties_field(e.children) {
                                Err(x) => Err(x),
                                Ok(properties) => match read_services_field(e) {
                                    Err(x) => Err(x),
                                    Ok(services) => Ok(
                                        ServiceView {
                                            bom_ref: attribute_value(e.attributes, "bom-ref"@),
                                            provider: read_provider_field(e.children),
                                            group: child_text(e.children, "group"@),
                                            name,
                                            version: child_text(e.children, "version"@),
                                            description: child_text(
                                                e.children,
                                                "description"@,
                                            ),
                                            endpoints: read_endpoints_field(e.children),
                                            authenticated,
                                            x_trust_boundary,
                                            data,
                                            licenses,
                                            external_references,
                                            properties,
                                            services,
                                        },
                                    ),
                                },
                            },
                        },
                    },
                },
            },
        },
    }
}

/// The nested services of a service, read from its child `services`.
pub open spec fn read_services_field(e: ElementView) -> Result<
    Option<Seq<ServiceView>>,
    ParseErrorView,
>
    decreases e, 0int,
{
    match first_child(e.children, "services"@) {
        None => Ok(None),
        Some(w) => {
            proof {
                lemma_first_child_is_a_child(e.children, "services"@);
                let i = choose|i: int|
                    0 <= i < e.children.len() && #[trigger] e.children[i] == NodeView::Element(w);
                assert(decreases_to!(e.children => e.children[i]));
                let node = e.children[i];
                assert(node is Element);
                assert(decreases_to!(node => node->Element_0));
                assert(decreases_to!(e => w.children));
            }
            match read_service_nodes(w.children) {
                Ok(list) => Ok(Some(list)),
                Err(x) => Err(x),
            }
        },
    }
}

/// What the nodes inside `services` read as: each `service` element in
/// order; anything else is passed over; the first that cannot be read is
/// the error.
pub open spec fn read_service_nodes(nodes: Seq<NodeView>) -> Result<Seq<ServiceView>, ParseErrorView>
    decreases nodes, 2int,
{
    if nodes.len() == 0 {
        Ok(Seq::empty())
    } else {
        match read_service_nodes(nodes.drop_last()) {
            Err(x) => Err(x),
            Ok(before) => match nodes.last() {
                NodeView::Element(c) => if c.name == "service"@ {
                    match read_service(c) {
                        Ok(s) => Ok(before.push(s)),
                        Err(x) => Err(x),
                    }
                } else {
                    Ok(before)
                },
                NodeView::Text(_) => Ok(before),
            },
        }
    }
}

/// What a `services` element reads as: its services, in order.
pub open spec fn read_services(e: ElementView) -> Result<Seq<ServiceView>, ParseErrorView> {
    read_service_nodes(e.children)
}

fn flag_from(e: &Element, tag: &str) -> (r: Result<Option<bool>, ParseError>)
    ensures
        match r {
            Ok(flag) => read_flag(e@.children, tag@) == Ok::<_, ParseErrorView>(flag),
            Err(x) => read_flag(e@.children, tag@) == Err::<Option<bool>, _>(x@),
        },
{
    match e.child_text(tag) {
        None => Ok(None),
        Some(text) => {
            let yes = String::from_str("true");
            let no = String::from_str("false");
            if text == yes {
                Ok(Some(true))
            } else if text == no {
                Ok(Some(false))
            } else {
                Err(ParseError::InvalidBoolean { element: String::from_str(tag), text })
            }
        },
    }
}

impl DataClassification {
    /// Reads a classification from its element.
    pub fn from_element(e: &Element) -> (r: Result<DataClassification, ParseError>)
        ensures
            result_view(r) == read_classification(e@),
    {
        match e.attribute("flow") {
            None => Err(
                ParseError::MissingAttribute {
                    element: String::from_str("classification"),
                    name: String::from_str("flow"),
                },
            ),
            Some(flow) => Ok(DataClassification { flow: flow.clone(), classification: e.text() }),
        }
    }
}

fn data_from(e: &Element) -> (r: Result<Vec<DataClassification>, ParseError>)
    ensures
        match r {
            Ok(list) => read_each(e@.children, classification_reader()) == Ok::<_, ParseErrorView>(
                views(list@),
            ),
            Err(x) => read_each(e@.children, classification_reader()) == Err::<
                Seq<DataClassificationView>,
                _,
            >(x@),
        },
{
    let wanted = String::from_str("classification");
    let ghost all = e@.children;
    let mut out: Vec<DataClassification> = Vec::new();
    let mut i: usize = 0;
    assert(all.take(0) =~= Seq::<NodeView>::empty());
    assert(views(out@) =~= Seq::<DataClassificationView>::empty());
    while i < e.children.len()
        invariant
            i <= e.children.len(),
            all == e@.children,
            all.len() == e.children.len(),
            wanted@ == "classification"@,
            read_each(all.take(i as int), classification_reader()) == Ok::<_, ParseErrorView>(
                views(out@),
            ),
        decreases e.children.len() - i,
    {
        let ghost next = all.take(i + 1);
        let ghost before = views(out@);
        assert(next.drop_last() =~= all.take(i as int));
        assert(next.last() == all[i as int]);
        assert(all[i as int] == e.children[i as int]@);
        match &e.children[i] {
            Node::Element(child) => {
                if child.name == wanted {
                    match DataClassification::from_element(child) {
                        Ok(x) => {
                            out.push(x);
                            assert(views(out@) =~= before.push(x@));
                        },
                        Err(err) => {
                            proof {
                                lemma_read_each_error(all, classification_reader(), i + 1);
                            }
                            return Err(err);
                        },
                    }
                }
            },
            Node::Text(_) => {},
        }
        i = i + 1;
    }
    assert(all.take(i as int) =~= all);
    Ok(out)
}

/// An error among the first `j` nodes is the error of the whole run.
pub proof fn lemma_read_service_nodes_error(nodes: Seq<NodeView>, j: int)
    requires
        0 <= j <= nodes.len(),
        read_service_nodes(nodes.take(j)) is Err,
    ensures
        read_service_nodes(nodes) == read_service_nodes(nodes.take(j)),
    decreases nodes.len(),
{
    if j == nodes.len() {
        assert(nodes.take(j) =~= nodes);
    } else {
        assert(nodes.drop_last().take(j) =~= nodes.take(j));
        lemma_read_service_nodes_error(nodes.drop_last(), j);
    }
}

impl Service {
    /// Reads a service from its element.
    pub fn from_element(e: &Element) -> (r: Result<Service, ParseError>)
        ensures
            result_view(r) == read_service(e@),
        decreases e,
    {
        let name = match e.child_text("name") {
            Some(name) => name,
            None => {
                return Err(
                    ParseError::MissingElement {
                        parent: String::from_str("service"),
                        name: String::from_str("name"),
                    },
                );
            },
        };
        let authenticated = match flag_from(e, "authenticated") {
            Ok(flag) => flag,
            Err(x) => {
                return Err(x);
            },
        };
        let x_trust_boundary = match flag_from(e, "x-trust-boundary") {
            Ok(flag) => flag,
            Err(x) => {
                return Err(x);
            },
        };
        let data = match e.first_child("data") {
            None => None,
            Some(w) => match data_from(w) {
                Ok(list) => Some(list),
                Err(x) => {
                    return Err(x);
                },
            },
        };
        assert(read_data_field(e@.children) == Ok::<_, ParseErrorView>(opt_views(data)));
        let licenses = match e.first_child("licenses") {
            None => None,
            Some(w) => match Licenses::from_element(w) {
                Ok(list) => Some(list),
                Err(x) => {
                    return Err(x);
                },
            },
        };
        assert(read_licenses_field(e@.children) == Ok::<_, ParseErrorView>(opt_view(licenses)));
        let external_references = match e.first_child("externalReferences") {
            None => None,
            Some(w) => match ExternalReferences::from_element(w) {
                Ok(list) => Some(list),
                Err(x) => {
                    return Err(x);
                },
            },
        };
        assert(read_references_field(e@.children) == Ok::<_, ParseErrorView>(
            opt_view(external_references),
        ));
        let properties = match e.first_child("properties") {
            None => None,
            Some(w) => match Properties::from_element(w) {
                Ok(list) => Some(list),
                Err(x) => {
                    return Err(x);
                },
            },
        };
        assert(read_properties_field(e@.children) == Ok::<_, ParseErrorView>(
            opt_view(properties),
        ));
        let services = match e.first_child("services") {
            None => None,
            Some(w) => {
                proof {
                    let i = choose|i: int|
                        0 <= i < e.children@.len() && #[trigger] e.children@[i] == Node::Element(
                            *w,
                        );
                    let node = e.children[i];
                    assert(decreases_to!(e.children => node));
                    assert(node is Element);
                    assert(decreases_to!(node => node->Element_0));
                }
                match Services::from_element(w) {
                    Ok(list) => Some(list),
                    Err(x) => {
                        return Err(x);
                    },
                }
            },
        };
        assert(read_services_field(e@) == Ok::<_, ParseErrorView>(opt_view(services)));
        let bom_ref = match e.attribute("bom-ref") {
            Some(value) => Some(value.clone()),
            None => None,
        };
        let provider = match e.first_child("provider") {
            Some(p) => Some(OrganizationalEntity::from_element(p)),
            None => None,
        };
        let endpoints = match e.first_child("endpoints") {
            Some(w) => Some(w.texts_named("endpoint")),
            None => None,
        };
        Ok(
            Service {
                bom_ref,
                provider,
                group: e.child_text("group"),
                name,
                version: e.child_text("version"),
                description: e.child_text("description"),
                endpoints,
                authenticated,
                x_trust_boundary,
                data,
                licenses,
                external_references,
                properties,
                services,
            },
        )
    }
}

impl Services {
    /// Reads the services from their element.
    pub fn from_element(e: &Element) -> (r: Result<Services, ParseError>)
        ensures
            result_view(r) == read_services(e@),
        decreases e,
    {
        let wanted = String::from_str("service");
        let ghost all = e@.children;
        let mut out: Vec<Service> = Vec::new();
        let mut i: usize = 0;
        assert(all.take(0) =~= Seq::<NodeView>::empty());
        assert(Services(out)@ =~= Seq::<ServiceView>::empty());
        while i < e.children.len()
            invariant
                i <= e.children.len(),
                all == e@.children,
                all.len() == e.children.len(),
                wanted@ == "service"@,
                read_service_nodes(all.take(i as int)) == Ok::<_, ParseErrorView>(Services(out)@),
            decreases e.children.len() - i,
        {
            let ghost next = all.take(i + 1);
            let ghost before = Services(out)@;
            assert(next.drop_last() =~= all.take(i as int));
            assert(next.last() == all[i as int]);
            assert(all[i as int] == e.children[i as int]@);
            match &e.children[i] {
                Node::Element(child) => {
                    if child.name == wanted {
                        match Service::from_element(child) {
                            Ok(x) => {
                                out.push(x);
                                assert(Services(out)@ =~= before.push(x@));
                            },
                            Err(err) => {
                                proof {
                                    lemma_read_service_nodes_error(all, i + 1);
                                }
                                return Err(err);
                            },
                        }
                    }
                },
                Node::Text(_) => {},
            }
            i = i + 1;
        }
        assert(all.take(i as int) =~= all);
        Ok(Services(out))
    }
}

/// What the root element of a document of services reads as: the root
/// must be named `services`.
pub open spec fn read_services_document(root: ElementView) -> Result<
    Seq<ServiceView>,
    ParseErrorView,
> {
    if root.name == "services"@ {
        read_services(root)
    } else {
        Err(ParseErrorView::UnexpectedElement { expected: "services"@, found: root.name })
    }
}

/// What the events of a document of services read as: an error of the
/// reader stays as it is; events that are not those of one element are
/// unbalanced; otherwise the root element is read.
pub open spec fn read_services_events(events: Result<Seq<EventView>, ParseErrorView>) -> Result<
    Seq<ServiceView>,
    ParseErrorView,
> {
    match events {
        Err(e) => Err(e),
        Ok(list) => match parse_document(list) {
            None => Err(ParseErrorView::Unbalanced),
            Some(root) => read_services_document(root),
        },
    }
}

impl Services {
    /// Reads the services of a document from its root element.
    pub fn from_document(root: &Element) -> (r: Result<Services, ParseError>)
        ensures
            result_view(r) == read_services_document(root@),
    {
        let expected = String::from_str("services");
        if root.name == expected {
            Services::from_element(root)
        } else {
            Err(ParseError::UnexpectedElement { expected, found: root.name.clone() })
        }
    }

    /// Reads the services of a document from what the reader made of its
    /// bytes.
    pub fn from_events(events: Result<Vec<MarkupEvent>, ParseError>) -> (r: Result<
        Services,
        ParseError,
    >)
        ensures
            result_view(r) == read_services_events(events_view(events)),
    {
        proof {
            if events is Ok {
                lemma_parsed_document_events(views(events->Ok_0@));
            }
        }
        match root_of(events) {
            Err(e) => Err(e),
            Ok(root) => {
                proof {
                    lemma_events_parse_back(root@);
                }
                Services::from_document(&root)
            },
        }
    }

    /// Reads the services of the document in `bytes`: what the reader
    /// makes of the bytes is read as `from_events` reads it.
    pub fn read_xml(bytes: &[u8]) -> (r: Result<Services, ParseError>)
        ensures
            result_view(r) == read_services_events(kept_events(document_events(bytes@))),
    {
        Services::from_events(read_events(bytes))
    }
}

} // verus!
