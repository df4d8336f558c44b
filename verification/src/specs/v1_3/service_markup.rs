//! The markup of services in version 1.3.
use crate::errors::XmlWriteError;
use crate::markup::{
    bool_text, opt_child, opt_text_child, text_children, text_element, wrapper_element,
    AttributeView, Element, ElementView, NodeView,
};
use crate::models::{
    lemma_flow_text_of_parse, opt_view, opt_views, views, DataClassificationView,
    ExternalReferenceView, LicenseChoiceView, OrganizationalEntityView, PropertyView, ServiceView,
};
use crate::specs::v1_3::external_reference::{references_element, ExternalReferences};
use crate::specs::v1_3::license::{licenses_element, Licenses};
use crate::specs::v1_3::organization::{entity_element, OrganizationalEntity};
use crate::specs::v1_3::property::{properties_element, Properties};
use crate::specs::v1_3::service::{DataClassification, Service, Services};
use crate::writer::{wrote, XmlWriter};
use vstd::prelude::*;

verus! {

broadcast use {
    vstd::std_specs::vec::axiom_vec_index_decreases,
    vstd::seq::axiom_seq_index_decreases,
    vstd::seq::axiom_seq_subrange_decreases,
};

/// The markup of a data classification: the direction is an attribute,
/// the classification the text of the element.
pub open spec fn classification_element(d: DataClassificationView) -> ElementView {
    ElementView {
        name: "classification"@,
        attributes: seq![AttributeView { name: "flow"@, value: d.flow.text() }],
        children: seq![NodeView::Text(d.classification)],
    }
}

/// The identity of a service on its start tag: the attribute `bom-ref` if
/// the service has one, no attribute otherwise.
pub open spec fn identity_attributes(bom_ref: Option<Seq<char>>) -> Seq<AttributeView> {
    match bom_ref {
        Some(r) => seq![AttributeView { name: "bom-ref"@, value: r }],
        None => Seq::empty(),
    }
}

/// The provider as a child: one `provider` element, or nothing.
pub open spec fn provider_child(provider: Option<OrganizationalEntityView>) -> Seq<NodeView> {
    match provider {
        Some(p) => seq![NodeView::Element(entity_element("provider"@, p))],
        None => Seq::empty(),
    }
}

/// The endpoints as a child: `endpoints` around one `endpoint` for each
/// address, also when there is none; nothing when the list is absent.
pub open spec fn endpoints_child(endpoints: Option<Seq<Seq<char>>>) -> Seq<NodeView> {
    match endpoints {
        Some(list) => seq![
            NodeView::Element(wrapper_element("endpoints"@, text_children("endpoint"@, list))),
        ],
        None => Seq::empty(),
    }
}

/// A truth value as a child: the text `true` or `false` in an element
/// named `tag`, or nothing.
pub open spec fn flag_child(tag: Seq<char>, flag: Option<bool>) -> Seq<NodeView> {
    match flag {
        Some(b) => seq![NodeView::Element(text_element(tag, bool_text(b)))],
        None => Seq::empty(),
    }
}

/// One `classification` element for each classification, in order.
pub open spec fn classification_children(ds: Seq<DataClassificationView>) -> Seq<NodeView> {
    Seq::new(ds.len(), |i: int| NodeView::Element(classification_element(ds[i])))
}

/// The classifications as a child: `data` around them, also when there is
/// none; nothing when the list is absent.
pub open spec fn data_child(data: Option<Seq<DataClassificationView>>) -> Seq<NodeView> {
    match data {
        Some(ds) => seq![
            NodeView::Element(wrapper_element("data"@, classification_children(ds))),
        ],
        None => Seq::empty(),
    }
}

/// The licenses as a child: one `licenses` element, or nothing.
pub open spec fn licenses_child(licenses: Option<Seq<LicenseChoiceView>>) -> Seq<NodeView> {
    match licenses {
        Some(ls) => seq![NodeView::Element(licenses_element(ls))],
        None => Seq::empty(),
    }
}

/// The external references as a child: one `externalReferences` element,
/// or nothing.
pub open spec fn references_child(references: Option<Seq<ExternalReferenceView>>) -> Seq<
    NodeView,
> {
    match references {
        Some(rs) => seq![NodeView::Element(references_element(rs))],
        None => Seq::empty(),
    }
}

/// The properties as a child: one `properties` element, or nothing.
pub open spec fn properties_child(properties: Option<Seq<PropertyView>>) -> Seq<NodeView> {
    match properties {
        Some(ps) => seq![NodeView::Element(properties_element(ps))],
        None => Seq::empty(),
    }
}

/// The nested services as a child: one `services` element, or nothing.
pub open spec fn services_child(services: Option<Seq<ServiceView>>) -> Seq<NodeView>
    decreases services, 2int,
{
    match services {
        Some(inner) => seq![NodeView::Element(services_element(inner))],
        None => Seq::empty(),
    }
}

/// The children of a `service` element, in the order that the schema
/// fixes: provider, group, name, version, description, endpoints,
/// authenticated, x-trust-boundary, data, licenses, external references,
/// properties, services. An absent field has no child.
pub open spec fn service_children(s: ServiceView) -> Seq<NodeView>
    decreases s, 0int,
{
    provider_child(s.provider) + opt_text_child("group"@, s.group) + seq![
        NodeView::Element(text_element("name"@, s.name)),
    ] + opt_text_child("version"@, s.version) + opt_text_child("description"@, s.description)
        + endpoints_child(s.endpoints) + flag_child("authenticated"@, s.authenticated)
        + flag_child("x-trust-boundary"@, s.x_trust_boundary) + data_child(s.data)
        + licenses_child(s.licenses) + references_child(s.external_references)
        + properties_child(s.properties) + services_child(s.services)
}

/// The markup of a service: a `service` element whose identity is an
/// attribute and whose other fields are children.
pub open spec fn service_element(s: ServiceView) -> ElementView
    decreases s, 1int,
{
    ElementView {
        name: "service"@,
        attributes: identity_attributes(s.bom_ref),
        children: service_children(s),
    }
}

/// The markup of a list of services: one `service` element for each, in
/// order, inside `services`.
pub open spec fn services_element(ss: Seq<ServiceView>) -> ElementView
    decreases ss, 1int,
{
    ElementView {
        name: "services"@,
        attributes: Seq::empty(),
        children: Seq::new(
            ss.len(),
            |i: int|
                if 0 <= i < ss.len() {
                    NodeView::Element(service_element(ss[i]))
                } else {
                    arbitrary()
                },
        ),
    }
}

impl DataClassification {
    /// The element that stands for the classification.
    pub fn to_element(&self) -> (e: Element)
        ensures
            e@ == classification_element(self@),
    {
        let mut e = Element::new("classification");
        e.attr("flow", self.flow.as_str());
        e.push_text(self.classification.as_str());
        proof {
            lemma_flow_text_of_parse(self.flow@);
        }
        assert(e@.attributes =~= classification_element(self@).attributes);
        assert(e@.children =~= classification_element(self@).children);
        e
    }

    /// Writes the classification as markup.
    pub fn write_xml_element(&self, writer: &mut XmlWriter) -> (r: Result<(), XmlWriteError>)
        ensures
            wrote(*old(writer), *final(writer), classification_element(self@), r),
    {
        writer.write_element(&self.to_element())
    }
}

fn data_element(list: &Vec<DataClassification>) -> (e: Element)
    ensures
        e@ == wrapper_element("data"@, classification_children(views(list@))),
{
    let mut e = Element::new("data");
    let ghost want = classification_children(views(list@));
    let mut i: usize = 0;
    assert(e@.children =~= want.take(0));
    while i < list.len()
        invariant
            i <= list.len(),
            want == classification_children(views(list@)),
            e@.name == "data"@,
            e@.attributes == Seq::<AttributeView>::empty(),
            e@.children == want.take(i as int),
        decreases list.len() - i,
    {
        e.push_element(list[i].to_element());
        assert(e@.children =~= want.take(i + 1));
        i = i + 1;
    }
    assert(want.take(i as int) =~= want);
    e
}

fn endpoints_element(list: &Vec<String>) -> (e: Element)
    ensures
        e@ == wrapper_element("endpoints"@, text_children("endpoint"@, views(list@))),
{
    let mut e = Element::new("endpoints");
    e.push_simple_tags("endpoint", list);
    assert(e@.children =~= text_children("endpoint"@, views(list@)));
    e
}

fn push_provider(e: &mut Element, provider: &Option<OrganizationalEntity>)
    ensures
        final(e)@ == (ElementView {
            children: old(e)@.children + provider_child(opt_view(*provider)),
            ..old(e)@
        }),
{
    let child = match provider {
        Some(p) => Some(p.to_named_element("provider")),
        None => None,
    };
    assert(opt_child(opt_view(child)) == provider_child(opt_view(*provider)));
    e.push_optional_element(child);
}

fn push_endpoints(e: &mut Element, endpoints: &Option<Vec<String>>)
    ensures
        final(e)@ == (ElementView {
            children: old(e)@.children + endpoints_child(opt_views(*endpoints)),
            ..old(e)@
        }),
{
    let child = match endpoints {
        Some(list) => Some(endpoints_element(list)),
        None => None,
    };
    assert(opt_child(opt_view(child)) == endpoints_child(opt_views(*endpoints)));
    e.push_optional_element(child);
}

fn push_flag(e: &mut Element, tag: &str, flag: Option<bool>)
    ensures
        final(e)@ == (ElementView {
            children: old(e)@.children + flag_child(tag@, flag),
            ..old(e)@
        }),
{
    let text = match flag {
        Some(true) => Some(String::from_str("true")),
        Some(false) => Some(String::from_str("false")),
        None => None,
    };
    assert(opt_text_child(tag@, opt_view(text)) == flag_child(tag@, flag));
    e.push_optional_tag(tag, &text);
}

fn push_data(e: &mut Element, data: &Option<Vec<DataClassification>>)
    ensures
        final(e)@ == (ElementView {
            children: old(e)@.children + data_child(opt_views(*data)),
            ..old(e)@
        }),
{
    let child = match data {
        Some(list) => Some(data_element(list)),
        None => None,
    };
    assert(opt_child(opt_view(child)) == data_child(opt_views(*data)));
    e.push_optional_element(child);
}

fn push_licenses(e: &mut Element, licenses: &Option<Licenses>)
    ensures
        final(e)@ == (ElementView {
            children: old(e)@.children + licenses_child(opt_view(*licenses)),
            ..old(e)@
        }),
{
    let child = match licenses {
        Some(l) => Some(l.to_element()),
        None => None,
    };
    assert(opt_child(opt_view(child)) == licenses_child(opt_view(*licenses)));
    e.push_optional_element(child);
}

fn push_references(e: &mut Element, references: &Option<ExternalReferences>)
    ensures
        final(e)@ == (ElementView {
            children: old(e)@.children + references_child(opt_view(*references)),
            ..old(e)@
        }),
{
    let child = match references {
        Some(r) => Some(r.to_element()),
        None => None,
    };
    assert(opt_child(opt_view(child)) == references_child(opt_view(*references)));
    e.push_optional_element(child);
}

fn push_properties(e: &mut Element, properties: &Option<Properties>)
    ensures
        final(e)@ == (ElementView {
            children: old(e)@.children + properties_child(opt_view(*properties)),
            ..old(e)@
        }),
{
    let child = match properties {
        Some(p) => Some(p.to_element()),
        None => None,
    };
    assert(opt_child(opt_view(child)) == properties_child(opt_view(*properties)));
    e.push_optional_element(child);
}

impl Service {
    /// The element that stands for the service.
    pub fn to_element(&self) -> (e: Element)
        ensures
            e@ == service_element(self@),
        decreases self,
    {
        let ghost v = self@;
        let mut e = Element::new("service");
        match &self.bom_ref {
            Some(bom_ref) => {
                e.attr("bom-ref", bom_ref.as_str());
            },
            None => {},
        }
        assert(e@.attributes =~= identity_attributes(v.bom_ref));
        push_provider(&mut e, &self.provider);
        assert(e@.children =~= provider_child(v.provider));
        e.push_optional_tag("group", &self.group);
        e.push_simple_tag("name", self.name.as_str());
        e.push_optional_tag("version", &self.version);
        e.push_optional_tag("description", &self.description);
        push_endpoints(&mut e, &self.endpoints);
        push_flag(&mut e, "authenticated", self.authenticated);
        push_flag(&mut e, "x-trust-boundary", self.x_trust_boundary);
        push_data(&mut e, &self.data);
        push_licenses(&mut e, &self.licenses);
        push_references(&mut e, &self.external_references);
        push_properties(&mut e, &self.properties);
        let nested = match &self.services {
            Some(services) => Some(services.to_element()),
            None => None,
        };
        assert(opt_child(opt_view(nested)) == services_child(v.services));
        e.push_optional_element(nested);
        e
    }

    /// Writes the service as markup.
    pub fn write_xml_element(&self, writer: &mut XmlWriter) -> (r: Result<(), XmlWriteError>)
        ensures
            wrote(*old(writer), *final(writer), service_element(self@), r),
    {
        writer.write_element(&self.to_element())
    }
}

impl Services {
    /// The element that stands for the list.
    pub fn to_element(&self) -> (e: Element)
        ensures
            e@ == services_element(self@),
        decreases self,
    {
        let mut e = Element::new("services");
        let ghost want = services_element(self@).children;
        let mut i: usize = 0;
        assert(e@.children =~= want.take(0));
        while i < self.0.len()
            invariant
                i <= self.0.len(),
                want == services_element(self@).children,
                want.len() == self.0.len(),
                e@.name == "services"@,
                e@.attributes == Seq::<AttributeView>::empty(),
                e@.children == want.take(i as int),
            decreases self.0.len() - i,
        {
            e.push_element(self.0[i].to_element());
            assert(e@.children =~= want.take(i + 1));
            i = i + 1;
        }
        assert(want.take(i as int) =~= want);
        e
    }

    /// Writes the list as markup.
    pub fn write_xml_element(&self, writer: &mut XmlWriter) -> (r: Result<(), XmlWriteError>)
        ensures
            wrote(*old(writer), *final(writer), services_element(self@), r),
    {
        writer.write_element(&self.to_element())
    }
}

} // verus!
