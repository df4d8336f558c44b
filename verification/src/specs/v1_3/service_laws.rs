//! What holds of the markup of every service.
use crate::markup::{
    opt_text_child, text_children, text_element, wrapper_element, AttributeView, EventView,
    NodeView,
};
use crate::errors::ParseErrorView;
use crate::lookup::{
    all_named, attribute_value, child_text, first_child, lemma_first_child_of_one,
    lemma_lookup_step, lemma_opt_text_child_read_back, lemma_other_name,
    lemma_read_each_of_all, lemma_text_children_read_back, lemma_text_of_one, read_each,
};
use crate::markup::bool_text;
use crate::models::{DataClassificationView, ServiceView};
use crate::specs::v1_3::external_reference::{lemma_references_read_back, references_element};
use crate::specs::v1_3::license::{lemma_licenses_read_back, licenses_element};
use crate::specs::v1_3::organization::{
    entity_element, entity_is_markable, lemma_entity_reads_back,
};
use crate::specs::v1_3::property::{lemma_properties_read_back, properties_element};
use crate::parser::{lemma_events_parse_back, parse_document};
use crate::specs::v1_3::service::{
    lemma_representable_services_unchanged, projected_classifications, projected_service,
    projected_services, services_are_representable,
};
use crate::specs::v1_3::service_reading::{
    classification_reader, read_data_field, read_endpoints_field, read_flag,
    read_licenses_field, read_properties_field, read_provider_field, read_references_field,
    read_service, read_services, read_services_document, read_services_events,
    read_services_field,
};
use crate::specs::v1_3::service_markup::{
    classification_children, data_child, endpoints_child, flag_child, identity_attributes,
    licenses_child, properties_child, provider_child, references_child, service_children,
    service_element, services_child, services_element,
};
use vstd::prelude::*;

verus! {

/// The names that the children of a `service` element can have.
pub open spec fn is_service_child_name(name: Seq<char>) -> bool {
    ||| name == "provider"@
    ||| name == "group"@
    ||| name == "name"@
    ||| name == "version"@
    ||| name == "description"@
    ||| name == "endpoints"@
    ||| name == "authenticated"@
    ||| name == "x-trust-boundary"@
    ||| name == "data"@
    ||| name == "licenses"@
    ||| name == "externalReferences"@
    ||| name == "properties"@
    ||| name == "services"@
}

/// The name of the identity attribute is the name of no child.
pub proof fn lemma_identity_name_is_no_child_name()
    ensures
        !is_service_child_name("bom-ref"@),
{
    reveal_strlit("bom-ref");
    reveal_strlit("provider");
    reveal_strlit("group");
    reveal_strlit("name");
    reveal_strlit("version");
    reveal_strlit("description");
    reveal_strlit("endpoints");
    reveal_strlit("authenticated");
    reveal_strlit("x-trust-boundary");
    reveal_strlit("data");
    reveal_strlit("licenses");
    reveal_strlit("externalReferences");
    reveal_strlit("properties");
    reveal_strlit("services");
    assert("bom-ref"@.len() == 7);
    assert("bom-ref"@[0] == 'b');
}

/// Some node of `children` is an element named `tag`.
pub open spec fn has_child_named(children: Seq<NodeView>, tag: Seq<char>) -> bool {
    exists|i: int|
        0 <= i < children.len() && ((#[trigger] children[i]) matches NodeView::Element(c)
            && c.name == tag)
}

/// A run of nodes that are all elements named `own` has no element named
/// otherwise, and an empty run has none at all.
pub proof fn lemma_part_lacks(part: Seq<NodeView>, own: Seq<char>, tag: Seq<char>)
    requires
        all_named(part, own),
        own != tag || part.len() == 0,
    ensures
        !has_child_named(part, tag),
{
}

/// What neither of two runs of nodes has, the two together do not have.
pub proof fn lemma_concat_lacks(a: Seq<NodeView>, b: Seq<NodeView>, tag: Seq<char>)
    requires
        !has_child_named(a, tag),
        !has_child_named(b, tag),
    ensures
        !has_child_named(a + b, tag),
{
    assert forall|i: int| 0 <= i < (a + b).len() implies !((#[trigger] (a + b)[i])
        matches NodeView::Element(c) && c.name == tag) by {
        if i < a.len() {
            assert((a + b)[i] == a[i]);
        } else {
            assert((a + b)[i] == b[i - a.len()]);
        }
    }
}

/// Each field of a service has children of its own name only.
pub proof fn lemma_fields_are_named(s: ServiceView)
    ensures
        all_named(provider_child(s.provider), "provider"@),
        all_named(opt_text_child("group"@, s.group), "group"@),
        all_named(seq![NodeView::Element(text_element("name"@, s.name))], "name"@),
        all_named(opt_text_child("version"@, s.version), "version"@),
        all_named(opt_text_child("description"@, s.description), "description"@),
        all_named(endpoints_child(s.endpoints), "endpoints"@),
        all_named(flag_child("authenticated"@, s.authenticated), "authenticated"@),
        all_named(flag_child("x-trust-boundary"@, s.x_trust_boundary), "x-trust-boundary"@),
        all_named(data_child(s.data), "data"@),
        all_named(licenses_child(s.licenses), "licenses"@),
        all_named(references_child(s.external_references), "externalReferences"@),
        all_named(properties_child(s.properties), "properties"@),
        all_named(services_child(s.services), "services"@),
{
}

/// A service has no child named `tag` where each field either has another
/// name or has no markup.
pub proof fn lemma_service_lacks(s: ServiceView, tag: Seq<char>)
    requires
        tag != "provider"@ || provider_child(s.provider).len() == 0,
        tag != "group"@ || opt_text_child("group"@, s.group).len() == 0,
        tag != "name"@ || seq![NodeView::Element(text_element("name"@, s.name))].len() == 0,
        tag != "version"@ || opt_text_child("version"@, s.version).len() == 0,
        tag != "description"@ || opt_text_child("description"@, s.description).len() == 0,
        tag != "endpoints"@ || endpoints_child(s.endpoints).len() == 0,
        tag != "authenticated"@ || flag_child("authenticated"@, s.authenticated).len() == 0,
        tag != "x-trust-boundary"@ || flag_child("x-trust-boundary"@, s.x_trust_boundary).len() == 0,
        tag != "data"@ || data_child(s.data).len() == 0,
        tag != "licenses"@ || licenses_child(s.licenses).len() == 0,
        tag != "externalReferences"@ || references_child(s.external_references).len() == 0,
        tag != "properties"@ || properties_child(s.properties).len() == 0,
        tag != "services"@ || services_child(s.services).len() == 0,
    ensures
        !has_child_named(service_children(s), tag),
{
    lemma_fields_are_named(s);
    lemma_part_lacks(provider_child(s.provider), "provider"@, tag);
    let c0 = provider_child(s.provider);
    lemma_part_lacks(opt_text_child("group"@, s.group), "group"@, tag);
    lemma_concat_lacks(c0, opt_text_child("group"@, s.group), tag);
    let c1 = c0 + opt_text_child("group"@, s.group);
    lemma_part_lacks(seq![NodeView::Element(text_element("name"@, s.name))], "name"@, tag);
    lemma_concat_lacks(c1, seq![NodeView::Element(text_element("name"@, s.name))], tag);
    let c2 = c1 + seq![NodeView::Element(text_element("name"@, s.name))];
    lemma_part_lacks(opt_text_child("version"@, s.version), "version"@, tag);
    lemma_concat_lacks(c2, opt_text_child("version"@, s.version), tag);
    let c3 = c2 + opt_text_child("version"@, s.version);
    lemma_part_lacks(opt_text_child("description"@, s.description), "description"@, tag);
    lemma_concat_lacks(c3, opt_text_child("description"@, s.description), tag);
    let c4 = c3 + opt_text_child("description"@, s.description);
    lemma_part_lacks(endpoints_child(s.endpoints), "endpoints"@, tag);
    lemma_concat_lacks(c4, endpoints_child(s.endpoints), tag);
    let c5 = c4 + endpoints_child(s.endpoints);
    lemma_part_lacks(flag_child("authenticated"@, s.authenticated), "authenticated"@, tag);
    lemma_concat_lacks(c5, flag_child("authenticated"@, s.authenticated), tag);
    let c6 = c5 + flag_child("authenticated"@, s.authenticated);
    lemma_part_lacks(flag_child("x-trust-boundary"@, s.x_trust_boundary), "x-trust-boundary"@, tag);
    lemma_concat_lacks(c6, flag_child("x-trust-boundary"@, s.x_trust_boundary), tag);
    let c7 = c6 + flag_child("x-trust-boundary"@, s.x_trust_boundary);
    lemma_part_lacks(data_child(s.data), "data"@, tag);
    lemma_concat_lacks(c7, data_child(s.data), tag);
    let c8 = c7 + data_child(s.data);
    lemma_part_lacks(licenses_child(s.licenses), "licenses"@, tag);
    lemma_concat_lacks(c8, licenses_child(s.licenses), tag);
    let c9 = c8 + licenses_child(s.licenses);
    lemma_part_lacks(references_child(s.external_references), "externalReferences"@, tag);
    lemma_concat_lacks(c9, references_child(s.external_references), tag);
    let c10 = c9 + references_child(s.external_references);
    lemma_part_lacks(properties_child(s.properties), "properties"@, tag);
    lemma_concat_lacks(c10, properties_child(s.properties), tag);
    let c11 = c10 + properties_child(s.properties);
    lemma_part_lacks(services_child(s.services), "services"@, tag);
    lemma_concat_lacks(c11, services_child(s.services), tag);
    let c12 = c11 + services_child(s.services);
    assert(c12 == service_children(s));
}

/// The place of a child's name in the order that the schema fixes.
pub open spec fn child_rank(name: Seq<char>) -> int {
    if name == "provider"@ {
        0
    } else if name == "group"@ {
        1
    } else if name == "name"@ {
        2
    } else if name == "version"@ {
        3
    } else if name == "description"@ {
        4
    } else if name == "endpoints"@ {
        5
    } else if name == "authenticated"@ {
        6
    } else if name == "x-trust-boundary"@ {
        7
    } else if name == "data"@ {
        8
    } else if name == "licenses"@ {
        9
    } else if name == "externalReferences"@ {
        10
    } else if name == "properties"@ {
        11
    } else if name == "services"@ {
        12
    } else {
        13
    }
}

/// The thirteen names of the children of a service differ from one
/// another: each has a place of its own in the order.
pub proof fn lemma_child_names_differ()
    ensures
        child_rank("provider"@) == 0,
        child_rank("group"@) == 1,
        child_rank("name"@) == 2,
        child_rank("version"@) == 3,
        child_rank("description"@) == 4,
        child_rank("endpoints"@) == 5,
        child_rank("authenticated"@) == 6,
        child_rank("x-trust-boundary"@) == 7,
        child_rank("data"@) == 8,
        child_rank("licenses"@) == 9,
        child_rank("externalReferences"@) == 10,
        child_rank("properties"@) == 11,
        child_rank("services"@) == 12,
{
    reveal_strlit("provider");
    assert("provider"@.len() == 8 && "provider"@[0] == 'p');
    reveal_strlit("group");
    assert("group"@.len() == 5 && "group"@[0] == 'g');
    reveal_strlit("name");
    assert("name"@.len() == 4 && "name"@[0] == 'n');
    reveal_strlit("version");
    assert("version"@.len() == 7 && "version"@[0] == 'v');
    reveal_strlit("description");
    assert("description"@.len() == 11 && "description"@[0] == 'd');
    reveal_strlit("endpoints");
    assert("endpoints"@.len() == 9 && "endpoints"@[0] == 'e');
    reveal_strlit("authenticated");
    assert("authenticated"@.len() == 13 && "authenticated"@[0] == 'a');
    reveal_strlit("x-trust-boundary");
    assert("x-trust-boundary"@.len() == 16 && "x-trust-boundary"@[0] == 'x');
    reveal_strlit("data");
    assert("data"@.len() == 4 && "data"@[0] == 'd');
    reveal_strlit("licenses");
    assert("licenses"@.len() == 8 && "licenses"@[0] == 'l');
    reveal_strlit("externalReferences");
    assert("externalReferences"@.len() == 18 && "externalReferences"@[0] == 'e');
    reveal_strlit("properties");
    assert("properties"@.len() == 10 && "properties"@[0] == 'p');
    reveal_strlit("services");
    assert("services"@.len() == 8 && "services"@[0] == 's');
}

/// The identity of a service stands on its start tag as the attribute
/// `bom-ref`, and no child element of the service has that name.
pub proof fn lemma_identity_is_an_attribute(s: ServiceView)
    ensures
        service_element(s).events()[0] == (EventView::Start {
            name: "service"@,
            attributes: identity_attributes(s.bom_ref),
        }),
        s.bom_ref matches Some(r) ==> identity_attributes(s.bom_ref) == seq![
            AttributeView { name: "bom-ref"@, value: r },
        ],
        s.bom_ref is None ==> identity_attributes(s.bom_ref) == Seq::<AttributeView>::empty(),
        !has_child_named(service_children(s), "bom-ref"@),
{
    lemma_identity_name_is_no_child_name();
    lemma_service_lacks(s, "bom-ref"@);
}

/// A field that is absent has no markup: no child of the service has the
/// field's name.
pub proof fn lemma_absent_field_has_no_child(s: ServiceView)
    ensures
        s.provider is None ==> !has_child_named(service_children(s), "provider"@),
        s.group is None ==> !has_child_named(service_children(s), "group"@),
        s.version is None ==> !has_child_named(service_children(s), "version"@),
        s.description is None ==> !has_child_named(service_children(s), "description"@),
        s.endpoints is None ==> !has_child_named(service_children(s), "endpoints"@),
        s.authenticated is None ==> !has_child_named(service_children(s), "authenticated"@),
        s.x_trust_boundary is None ==> !has_child_named(
            service_children(s),
            "x-trust-boundary"@,
        ),
        s.data is None ==> !has_child_named(service_children(s), "data"@),
        s.licenses is None ==> !has_child_named(service_children(s), "licenses"@),
        s.external_references is None ==> !has_child_named(
            service_children(s),
            "externalReferences"@,
        ),
        s.properties is None ==> !has_child_named(service_children(s), "properties"@),
        s.services is None ==> !has_child_named(service_children(s), "services"@),
{
    lemma_child_names_differ();
    if s.provider is None {
        lemma_service_lacks(s, "provider"@);
    }
    if s.group is None {
        lemma_service_lacks(s, "group"@);
    }
    if s.version is None {
        lemma_service_lacks(s, "version"@);
    }
    if s.description is None {
        lemma_service_lacks(s, "description"@);
    }
    if s.endpoints is None {
        lemma_service_lacks(s, "endpoints"@);
    }
    if s.authenticated is None {
        lemma_service_lacks(s, "authenticated"@);
    }
    if s.x_trust_boundary is None {
        lemma_service_lacks(s, "x-trust-boundary"@);
    }
    if s.data is None {
        lemma_service_lacks(s, "data"@);
    }
    if s.licenses is None {
        lemma_service_lacks(s, "licenses"@);
    }
    if s.external_references is None {
        lemma_service_lacks(s, "externalReferences"@);
    }
    if s.properties is None {
        lemma_service_lacks(s, "properties"@);
    }
    if s.services is None {
        lemma_service_lacks(s, "services"@);
    }
}

/// A list that is present and empty keeps its wrapper: the field is one
/// element without children, which is a start tag followed by an end tag.
pub proof fn lemma_empty_list_keeps_wrapper()
    ensures
        endpoints_child(Some(Seq::empty())) == seq![
            NodeView::Element(wrapper_element("endpoints"@, Seq::empty())),
        ],
        data_child(Some(Seq::empty())) == seq![
            NodeView::Element(wrapper_element("data"@, Seq::empty())),
        ],
        services_child(Some(Seq::empty())) == seq![
            NodeView::Element(wrapper_element("services"@, Seq::empty())),
        ],
        forall|tag: Seq<char>| #[trigger]
            wrapper_element(tag, Seq::empty()).events() == seq![
                EventView::Start { name: tag, attributes: Seq::empty() },
                EventView::End,
            ],
{
    assert(text_children("endpoint"@, Seq::empty()) =~= Seq::empty());
    assert(classification_children(Seq::empty()) =~= Seq::empty());
    assert(services_element(Seq::empty()).children =~= Seq::empty());
    assert forall|tag: Seq<char>| #[trigger]
        wrapper_element(tag, Seq::empty()).events() == seq![
            EventView::Start { name: tag, attributes: Seq::empty() },
            EventView::End,
        ] by {
        assert(wrapper_element(tag, Seq::empty()).events() =~= seq![
            EventView::Start { name: tag, attributes: Seq::empty() },
            EventView::End,
        ]);
    }
}

/// The part of the children of a service that belongs to the field named
/// `tag`; nothing where no field has that name.
pub open spec fn service_part(s: ServiceView, tag: Seq<char>) -> Seq<NodeView> {
    if tag == "provider"@ {
        provider_child(s.provider)
    } else if tag == "group"@ {
        opt_text_child("group"@, s.group)
    } else if tag == "name"@ {
        seq![NodeView::Element(text_element("name"@, s.name))]
    } else if tag == "version"@ {
        opt_text_child("version"@, s.version)
    } else if tag == "description"@ {
        opt_text_child("description"@, s.description)
    } else if tag == "endpoints"@ {
        endpoints_child(s.endpoints)
    } else if tag == "authenticated"@ {
        flag_child("authenticated"@, s.authenticated)
    } else if tag == "x-trust-boundary"@ {
        flag_child("x-trust-boundary"@, s.x_trust_boundary)
    } else if tag == "data"@ {
        data_child(s.data)
    } else if tag == "licenses"@ {
        licenses_child(s.licenses)
    } else if tag == "externalReferences"@ {
        references_child(s.external_references)
    } else if tag == "properties"@ {
        properties_child(s.properties)
    } else if tag == "services"@ {
        services_child(s.services)
    } else {
        Seq::empty()
    }
}

/// The first child of a name among the children of a service is the first
/// node of the field of that name.
pub proof fn lemma_service_lookup(s: ServiceView, tag: Seq<char>)
    ensures
        first_child(service_children(s), tag) == first_child(service_part(s, tag), tag),
{
    lemma_fields_are_named(s);
    lemma_child_names_differ();
    let c0 = provider_child(s.provider);
    if tag != "provider"@ {
        lemma_other_name(c0, "provider"@, tag);
    }
    lemma_lookup_step(c0, opt_text_child("group"@, s.group), "group"@, tag);
    let c1 = c0 + opt_text_child("group"@, s.group);
    assert(first_child(c1, tag) == if child_rank(tag) <= 1 {
        first_child(service_part(s, tag), tag)
    } else {
        None
    });
    lemma_lookup_step(c1, seq![NodeView::Element(text_element("name"@, s.name))], "name"@, tag);
    let c2 = c1 + seq![NodeView::Element(text_element("name"@, s.name))];
    assert(first_child(c2, tag) == if child_rank(tag) <= 2 {
        first_child(service_part(s, tag), tag)
    } else {
        None
    });
    lemma_lookup_step(c2, opt_text_child("version"@, s.version), "version"@, tag);
    let c3 = c2 + opt_text_child("version"@, s.version);
    assert(first_child(c3, tag) == if child_rank(tag) <= 3 {
        first_child(service_part(s, tag), tag)
    } else {
        None
    });
    lemma_lookup_step(c3, opt_text_child("description"@, s.description), "description"@, tag);
    let c4 = c3 + opt_text_child("description"@, s.description);
    assert(first_child(c4, tag) == if child_rank(tag) <= 4 {
        first_child(service_part(s, tag), tag)
    } else {
        None
    });
    lemma_lookup_step(c4, endpoints_child(s.endpoints), "endpoints"@, tag);
    let c5 = c4 + endpoints_child(s.endpoints);
    assert(first_child(c5, tag) == if child_rank(tag) <= 5 {
        first_child(service_part(s, tag), tag)
    } else {
        None
    });
    lemma_lookup_step(c5, flag_child("authenticated"@, s.authenticated), "authenticated"@, tag);
    let c6 = c5 + flag_child("authenticated"@, s.authenticated);
    assert(first_child(c6, tag) == if child_rank(tag) <= 6 {
        first_child(service_part(s, tag), tag)
    } else {
        None
    });
    lemma_lookup_step(c6, flag_child("x-trust-boundary"@, s.x_trust_boundary), "x-trust-boundary"@, tag);
    let c7 = c6 + flag_child("x-trust-boundary"@, s.x_trust_boundary);
    assert(first_child(c7, tag) == if child_rank(tag) <= 7 {
        first_child(service_part(s, tag), tag)
    } else {
        None
    });
    lemma_lookup_step(c7, data_child(s.data), "data"@, tag);
    let c8 = c7 + data_child(s.data);
    assert(first_child(c8, tag) == if child_rank(tag) <= 8 {
        first_child(service_part(s, tag), tag)
    } else {
        None
    });
    lemma_lookup_step(c8, licenses_child(s.licenses), "licenses"@, tag);
    let c9 = c8 + licenses_child(s.licenses);
    assert(first_child(c9, tag) == if child_rank(tag) <= 9 {
        first_child(service_part(s, tag), tag)
    } else {
        None
    });
    lemma_lookup_step(c9, references_child(s.external_references), "externalReferences"@, tag);
    let c10 = c9 + references_child(s.external_references);
    assert(first_child(c10, tag) == if child_rank(tag) <= 10 {
        first_child(service_part(s, tag), tag)
    } else {
        None
    });
    lemma_lookup_step(c10, properties_child(s.properties), "properties"@, tag);
    let c11 = c10 + properties_child(s.properties);
    assert(first_child(c11, tag) == if child_rank(tag) <= 11 {
        first_child(service_part(s, tag), tag)
    } else {
        None
    });
    lemma_lookup_step(c11, services_child(s.services), "services"@, tag);
    let c12 = c11 + services_child(s.services);
    assert(first_child(c12, tag) == if child_rank(tag) <= 12 {
        first_child(service_part(s, tag), tag)
    } else {
        None
    });
    assert(c12 == service_children(s));
}

/// A service whose provider, and the provider of every service nested in
/// it, has lists that are absent or hold at least one item.
pub open spec fn service_is_markable(s: ServiceView) -> bool
    decreases s,
{
    &&& s.provider matches Some(p) ==> entity_is_markable(p)
    &&& s.services matches Some(inner) ==> forall|i: int|
        0 <= i < inner.len() ==> service_is_markable(#[trigger] inner[i])
}

/// The texts of a service read back from its markup.
pub proof fn lemma_service_texts_read_back(s: ServiceView)
    ensures
        child_text(service_children(s), "group"@) == s.group,
        child_text(service_children(s), "name"@) == Some(s.name),
        child_text(service_children(s), "version"@) == s.version,
        child_text(service_children(s), "description"@) == s.description,
{
    lemma_child_names_differ();
    lemma_service_lookup(s, "group"@);
    lemma_service_lookup(s, "name"@);
    lemma_service_lookup(s, "version"@);
    lemma_service_lookup(s, "description"@);
    lemma_opt_text_child_read_back("group"@, s.group);
    lemma_opt_text_child_read_back("version"@, s.version);
    lemma_opt_text_child_read_back("description"@, s.description);
    lemma_first_child_of_one(text_element("name"@, s.name));
    lemma_text_of_one(s.name);
}

/// A truth value reads back from its markup.
pub proof fn lemma_flag_reads_back(tag: Seq<char>, flag: Option<bool>)
    ensures
        read_flag(flag_child(tag, flag), tag) == Ok::<_, ParseErrorView>(flag),
{
    reveal_strlit("true");
    reveal_strlit("false");
    assert("true"@.len() == 4);
    assert("false"@.len() == 5);
    match flag {
        Some(b) => {
            lemma_first_child_of_one(text_element(tag, bool_text(b)));
            lemma_text_of_one(bool_text(b));
        },
        None => {},
    }
}

/// The truth values of a service read back from its markup.
pub proof fn lemma_service_flags_read_back(s: ServiceView)
    ensures
        read_flag(service_children(s), "authenticated"@) == Ok::<_, ParseErrorView>(
            s.authenticated,
        ),
        read_flag(service_children(s), "x-trust-boundary"@) == Ok::<_, ParseErrorView>(
            s.x_trust_boundary,
        ),
{
    lemma_child_names_differ();
    lemma_service_lookup(s, "authenticated"@);
    lemma_service_lookup(s, "x-trust-boundary"@);
    lemma_flag_reads_back("authenticated"@, s.authenticated);
    lemma_flag_reads_back("x-trust-boundary"@, s.x_trust_boundary);
}

/// The provider and the endpoints of a service read back from its markup.
pub proof fn lemma_service_provider_reads_back(s: ServiceView)
    requires
        s.provider matches Some(p) ==> entity_is_markable(p),
    ensures
        read_provider_field(service_children(s)) == s.provider,
        read_endpoints_field(service_children(s)) == s.endpoints,
        attribute_value(identity_attributes(s.bom_ref), "bom-ref"@) == s.bom_ref,
{
    lemma_child_names_differ();
    lemma_service_lookup(s, "provider"@);
    lemma_service_lookup(s, "endpoints"@);
    match s.provider {
        Some(p) => {
            lemma_first_child_of_one(entity_element("provider"@, p));
            lemma_entity_reads_back("provider"@, p);
        },
        None => {},
    }
    match s.endpoints {
        Some(list) => {
            lemma_first_child_of_one(
                wrapper_element("endpoints"@, text_children("endpoint"@, list)),
            );
            lemma_text_children_read_back("endpoint"@, list);
        },
        None => {},
    }
}

/// The markup of classifications reads back as the classifications that
/// version 1.3 holds, in order.
pub proof fn lemma_classifications_read_back(ds: Seq<DataClassificationView>)
    ensures
        read_each(classification_children(ds), classification_reader()) == Ok::<
            _,
            ParseErrorView,
        >(projected_classifications(ds)),
{
    let nodes = classification_children(ds);
    let items = projected_classifications(ds);
    assert forall|i: int| 0 <= i < nodes.len() implies classification_reader()(
        #[trigger] nodes[i],
    ) == Some(Ok::<_, ParseErrorView>(items[i])) by {
        lemma_text_of_one(ds[i].classification);
    }
    lemma_read_each_of_all(nodes, classification_reader(), items);
}

/// The lists of a service that stand in wrappers of their own read back
/// from its markup.
pub proof fn lemma_service_lists_read_back(s: ServiceView)
    ensures
        read_data_field(service_children(s)) == Ok::<_, ParseErrorView>(
            projected_service(s).data,
        ),
        read_licenses_field(service_children(s)) == Ok::<_, ParseErrorView>(s.licenses),
        read_references_field(service_children(s)) == Ok::<_, ParseErrorView>(
            projected_service(s).external_references,
        ),
        read_properties_field(service_children(s)) == Ok::<_, ParseErrorView>(s.properties),
{
    lemma_child_names_differ();
    lemma_service_lookup(s, "data"@);
    lemma_service_lookup(s, "licenses"@);
    lemma_service_lookup(s, "externalReferences"@);
    lemma_service_lookup(s, "properties"@);
    match s.data {
        Some(ds) => {
            lemma_first_child_of_one(wrapper_element("data"@, classification_children(ds)));
            lemma_classifications_read_back(ds);
        },
        None => {},
    }
    match s.licenses {
        Some(ls) => {
            lemma_first_child_of_one(licenses_element(ls));
            lemma_licenses_read_back(ls);
        },
        None => {},
    }
    match s.external_references {
        Some(rs) => {
            lemma_first_child_of_one(references_element(rs));
            lemma_references_read_back(rs);
        },
        None => {},
    }
    match s.properties {
        Some(ps) => {
            lemma_first_child_of_one(properties_element(ps));
            lemma_properties_read_back(ps);
        },
        None => {},
    }
}

/// The markup of a service reads back as the service that version 1.3
/// holds, at every depth.
pub proof fn lemma_service_reads_back(s: ServiceView)
    requires
        service_is_markable(s),
    ensures
        read_service(service_element(s)) == Ok::<_, ParseErrorView>(projected_service(s)),
    decreases s, 1int,
{
    let e = service_element(s);
    lemma_service_texts_read_back(s);
    lemma_service_flags_read_back(s);
    lemma_service_provider_reads_back(s);
    lemma_service_lists_read_back(s);
    lemma_child_names_differ();
    lemma_service_lookup(s, "services"@);
    match s.services {
        Some(inner) => {
            lemma_first_child_of_one(services_element(inner));
            lemma_services_read_back(inner);
        },
        None => {},
    }
    assert(read_services_field(e) == Ok::<_, ParseErrorView>(projected_service(s).services));
}

/// The markup of a list of services reads back as the services that
/// version 1.3 holds, in the same order.
pub proof fn lemma_services_read_back(ss: Seq<ServiceView>)
    requires
        forall|i: int| 0 <= i < ss.len() ==> service_is_markable(#[trigger] ss[i]),
    ensures
        read_services(services_element(ss)) == Ok::<_, ParseErrorView>(projected_services(ss)),
    decreases ss, 0int,
{
    let nodes = services_element(ss).children;
    if ss.len() == 0 {
        assert(projected_services(ss) =~= Seq::<ServiceView>::empty());
    } else {
        let before = ss.drop_last();
        lemma_services_read_back(before);
        lemma_service_reads_back(ss.last());
        assert(nodes.drop_last() =~= services_element(before).children);
        assert(nodes.last() == NodeView::Element(service_element(ss.last())));
        assert(projected_services(before).push(projected_service(ss.last()))
            =~= projected_services(ss));
    }
}

/// Services that are written as markup and read back are the same
/// services in the same order: the events of their markup are the events
/// of one element, that element is their markup, and it reads as the
/// services themselves. This holds of services that version 1.3 can hold
/// as they are and whose providers have no list without items.
pub proof fn lemma_markup_round_trip(ss: Seq<ServiceView>)
    requires
        services_are_representable(ss),
        forall|i: int| 0 <= i < ss.len() ==> service_is_markable(#[trigger] ss[i]),
    ensures
        parse_document(services_element(ss).events()) == Some(services_element(ss)),
        read_services_document(services_element(ss)) == Ok::<_, ParseErrorView>(ss),
        read_services_events(Ok(services_element(ss).events())) == Ok::<_, ParseErrorView>(ss),
{
    lemma_events_parse_back(services_element(ss));
    lemma_services_read_back(ss);
    lemma_representable_services_unchanged(ss);
}

} // verus!
