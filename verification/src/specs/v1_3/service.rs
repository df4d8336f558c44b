use crate::external_models::NormalizedString;
use crate::models;
use crate::models::{
    lemma_flow_text_of_parse, opt_view, opt_views, views, DataClassificationView, DataFlowTypeView,
    ServiceView,
};
use crate::specs::v1_3::external_reference::{
    lemma_faithful_references_unchanged, projected_references, references_are_faithful,
    ExternalReferences,
};
use crate::specs::v1_3::license::Licenses;
use crate::specs::v1_3::organization::OrganizationalEntity;
use crate::specs::v1_3::property::Properties;
use crate::utilities::{optional_normalized, optional_text, uri_texts, uris};
use vstd::prelude::*;
use vstd::std_specs::convert::FromSpecImpl;

verus! {

broadcast use {
    vstd::std_specs::vec::axiom_vec_index_decreases,
    vstd::seq::axiom_seq_index_decreases,
    vstd::seq::axiom_seq_subrange_decreases,
};

/// A data classification as version 1.3 has it: the direction is text.
#[derive(Debug, Clone, PartialEq, Eq)]
pub struct DataClassification {
    pub flow: String,
    pub classification: String,
}

/// A service as version 1.3 has it.
#[derive(Debug, PartialEq, Eq)]
pub struct Service {
    pub bom_ref: Option<String>,
    pub provider: Option<OrganizationalEntity>,
    pub group: Option<String>,
    pub name: String,
    pub version: Option<String>,
    pub description: Option<String>,
    pub endpoints: Option<Vec<String>>,
    pub authenticated: Option<bool>,
    pub x_trust_boundary: Option<bool>,
    pub data: Option<Vec<DataClassification>>,
    pub licenses: Option<Licenses>,
    pub external_references: Option<ExternalReferences>,
    pub properties: Option<Properties>,
    pub services: Option<Services>,
}

/// A list of services as version 1.3 has it.
#[derive(Debug, PartialEq, Eq)]
pub struct Services(pub Vec<Service>);

impl View for DataClassification {
    type V = DataClassificationView;

    open spec fn view(&self) -> DataClassificationView {
        DataClassificationView {
            flow: DataFlowTypeView::parse(self.flow@),
            classification: self.classification@,
        }
    }
}

impl View for Service {
    type V = ServiceView;

    open spec fn view(&self) -> ServiceView {
        service_view(*self)
    }
}

impl View for Services {
    type V = Seq<ServiceView>;

    open spec fn view(&self) -> Seq<ServiceView> {
        services_view(*self)
    }
}

/// The value that a service stands for.
pub open spec fn service_view(s: Service) -> ServiceView
    decreases s,
{
    ServiceView {
        bom_ref: opt_view(s.bom_ref),
        provider: opt_view(s.provider),
        group: opt_view(s.group),
        name: s.name@,
        version: opt_view(s.version),
        description: opt_view(s.description),
        endpoints: opt_views(s.endpoints),
        authenticated: s.authenticated,
        x_trust_boundary: s.x_trust_boundary,
        data: opt_views(s.data),
        licenses: opt_view(s.licenses),
        external_references: opt_view(s.external_references),
        properties: opt_view(s.properties),
        services: match s.services {
            Some(inner) => Some(services_view(inner)),
            None => None,
        },
    }
}

/// The values that the services of a list stand for, in order.
pub open spec fn services_view(list: Services) -> Seq<ServiceView>
    decreases list,
{
    Seq::new(
        list.0@.len(),
        |i: int|
            if 0 <= i < list.0.len() {
                service_view(list.0[i])
            } else {
                arbitrary()
            },
    )
}

/// The classification as version 1.3 holds it: its direction is the one
/// that the text of the direction names.
pub open spec fn projected_classification(d: DataClassificationView) -> DataClassificationView {
    DataClassificationView { flow: DataFlowTypeView::parse(d.flow.text()), ..d }
}

/// Each classification as version 1.3 holds it.
pub open spec fn projected_classifications(ds: Seq<DataClassificationView>) -> Seq<
    DataClassificationView,
> {
    Seq::new(ds.len(), |i: int| projected_classification(ds[i]))
}

/// The service as version 1.3 holds it: every field is kept; each open
/// enumeration in it, at any depth, becomes what its own text names.
pub open spec fn projected_service(s: ServiceView) -> ServiceView
    decreases s,
{
    ServiceView {
        data: match s.data {
            Some(ds) => Some(projected_classifications(ds)),
            None => None,
        },
        external_references: match s.external_references {
            Some(rs) => Some(projected_references(rs)),
            None => None,
        },
        services: match s.services {
            Some(inner) => Some(projected_services(inner)),
            None => None,
        },
        ..s
    }
}

/// Each service of the list as version 1.3 holds it.
pub open spec fn projected_services(ss: Seq<ServiceView>) -> Seq<ServiceView>
    decreases ss,
{
    Seq::new(
        ss.len(),
        |i: int|
            if 0 <= i < ss.len() {
                projected_service(ss[i])
            } else {
                arbitrary()
            },
    )
}

/// Every open enumeration in the service, at any depth, is what its own
/// text names: version 1.3 can hold the service as it is.
pub open spec fn service_is_representable(s: ServiceView) -> bool
    decreases s,
{
    &&& s.data matches Some(ds) ==> forall|i: int|
        0 <= i < ds.len() ==> (#[trigger] ds[i]).flow.is_faithful()
    &&& s.external_references matches Some(rs) ==> references_are_faithful(rs)
    &&& s.services matches Some(inner) ==> services_are_representable(inner)
}

/// Every service of the list is representable.
pub open spec fn services_are_representable(ss: Seq<ServiceView>) -> bool
    decreases ss,
{
    forall|i: int| 0 <= i < ss.len() ==> service_is_representable(#[trigger] ss[i])
}

/// A service that version 1.3 can hold as it is is held unchanged.
pub proof fn lemma_representable_service_unchanged(s: ServiceView)
    requires
        service_is_representable(s),
    ensures
        projected_service(s) == s,
    decreases s,
{
    match s.data {
        Some(ds) => {
            assert(projected_classifications(ds) =~= ds);
        },
        None => {},
    }
    match s.external_references {
        Some(rs) => {
            lemma_faithful_references_unchanged(rs);
        },
        None => {},
    }
    match s.services {
        Some(inner) => {
            lemma_representable_services_unchanged(inner);
        },
        None => {},
    }
}

/// Services that version 1.3 can hold as they are are held unchanged, in
/// the same order.
pub proof fn lemma_representable_services_unchanged(ss: Seq<ServiceView>)
    requires
        services_are_representable(ss),
    ensures
        projected_services(ss) == ss,
    decreases ss,
{
    assert forall|i: int| 0 <= i < ss.len() implies projected_services(ss)[i] == ss[i] by {
        lemma_representable_service_unchanged(ss[i]);
    }
    assert(projected_services(ss) =~= ss);
}

/// What version 1.3 holds of a service it holds of that again: projecting
/// twice is projecting once.
pub proof fn lemma_projected_service_is_representable(s: ServiceView)
    ensures
        service_is_representable(projected_service(s)),
    decreases s,
{
    let p = projected_service(s);
    match s.data {
        Some(ds) => {
            assert forall|i: int| 0 <= i < ds.len() implies (#[trigger] p.data->0[i]).flow.is_faithful() by {
                lemma_flow_text_of_parse(ds[i].flow.text());
            }
        },
        None => {},
    }
    match s.external_references {
        Some(rs) => {
            assert forall|i: int| 0 <= i < rs.len() implies (#[trigger] p.external_references->0[i]).external_reference_type.is_faithful() by {
                models::lemma_reference_type_text_of_parse(rs[i].external_reference_type.text());
            }
        },
        None => {},
    }
    match s.services {
        Some(inner) => {
            assert forall|i: int| 0 <= i < inner.len() implies service_is_representable(
                #[trigger] p.services->0[i],
            ) by {
                lemma_projected_service_is_representable(inner[i]);
            }
        },
        None => {},
    }
}

/// Round trip: a canonical service that is projected to version 1.3 and
/// taken back is the service it was, where version 1.3 can hold it as it
/// is. `projected` stands for the result of `Service::from` and `back` for
/// the result of `models::Service::from`, as their contracts give them.
pub proof fn lemma_round_trip_identity(
    canonical: ServiceView,
    projected: ServiceView,
    back: ServiceView,
)
    requires
        service_is_representable(canonical),
        projected == projected_service(canonical),
        back == projected,
    ensures
        back == canonical,
{
    lemma_representable_service_unchanged(canonical);
}

/// What version 1.3 holds is representable: a service of version 1.3
/// stands for a value that version 1.3 can hold as it is.
pub proof fn lemma_held_service_is_representable(held: Service)
    ensures
        service_is_representable(held@),
    decreases held,
{
    let v = held@;
    match held.data {
        Some(list) => {
            assert forall|i: int| 0 <= i < v.data->0.len() implies (#[trigger] v.data->0[i]).flow.is_faithful() by {
                lemma_flow_text_of_parse(list@[i].flow@);
            }
        },
        None => {},
    }
    match held.external_references {
        Some(list) => {
            assert forall|i: int| 0 <= i < v.external_references->0.len() implies (
            #[trigger] v.external_references->0[i]).external_reference_type.is_faithful() by {
                models::lemma_reference_type_text_of_parse(
                    list.0@[i].external_reference_type@,
                );
            }
        },
        None => {},
    }
    match held.services {
        Some(inner) => {
            assert forall|i: int| 0 <= i < v.services->0.len() implies service_is_representable(
                #[trigger] v.services->0[i],
            ) by {
                lemma_held_service_is_representable(inner.0@[i]);
            }
        },
        None => {},
    }
}

impl FromSpecImpl<models::DataClassification> for DataClassification {
    open spec fn obeys_from_spec() -> bool {
        false
    }

    open spec fn from_spec(other: models::DataClassification) -> Self {
        arbitrary()
    }
}

impl From<models::DataClassification> for DataClassification {
    fn from(other: models::DataClassification) -> (r: Self)
        ensures
            r@ == projected_classification(other@),
    {
        DataClassification {
            flow: other.flow.to_text(),
            classification: other.classification.0,
        }
    }
}

impl FromSpecImpl<DataClassification> for models::DataClassification {
    open spec fn obeys_from_spec() -> bool {
        false
    }

    open spec fn from_spec(other: DataClassification) -> Self {
        arbitrary()
    }
}

impl From<DataClassification> for models::DataClassification {
    fn from(other: DataClassification) -> (r: Self)
        ensures
            r@ == other@,
    {
        models::DataClassification {
            flow: models::DataFlowType::new_unchecked(other.flow.as_str()),
            classification: NormalizedString::new_unchecked(other.classification),
        }
    }
}

fn classifications_from(list: Vec<models::DataClassification>) -> (r: Vec<DataClassification>)
    ensures
        views(r@) == projected_classifications(views(list@)),
{
    let mut out: Vec<DataClassification> = Vec::new();
    let ghost all = list@;
    for item in it: list.into_iter()
        invariant
            it.seq() == all,
            out@.len() == it.index(),
            forall|j: int|
                0 <= j < out@.len() ==> (#[trigger] out@[j])@ == projected_classification(all[j]@),
    {
        out.push(DataClassification::from(item));
    }
    assert(views(out@) =~= projected_classifications(views(all)));
    out
}

fn classifications_into(list: Vec<DataClassification>) -> (r: Vec<models::DataClassification>)
    ensures
        views(r@) == views(list@),
{
    let mut out: Vec<models::DataClassification> = Vec::new();
    let ghost all = list@;
    for item in it: list.into_iter()
        invariant
            it.seq() == all,
            out@.len() == it.index(),
            forall|j: int| 0 <= j < out@.len() ==> (#[trigger] out@[j])@ == all[j]@,
    {
        out.push(models::DataClassification::from(item));
    }
    assert(views(out@) =~= views(all));
    out
}

impl FromSpecImpl<models::Service> for Service {
    open spec fn obeys_from_spec() -> bool {
        false
    }

    open spec fn from_spec(other: models::Service) -> Self {
        arbitrary()
    }
}

impl From<models::Service> for Service {
    fn from(other: models::Service) -> (r: Self)
        ensures
            r@ == projected_service(other@),
        decreases other,
    {
        Service {
            bom_ref: other.bom_ref,
            provider: match other.provider {
                Some(p) => Some(OrganizationalEntity::from(p)),
                None => None,
            },
            group: optional_text(other.group),
            name: other.name.0,
            version: optional_text(other.version),
            description: optional_text(other.description),
            endpoints: match other.endpoints {
                Some(list) => Some(uri_texts(list)),
                None => None,
            },
            authenticated: other.authenticated,
            x_trust_boundary: other.x_trust_boundary,
            data: match other.data {
                Some(list) => Some(classifications_from(list)),
                None => None,
            },
            licenses: match other.licenses {
                Some(l) => Some(Licenses::from(l)),
                None => None,
            },
            external_references: match other.external_references {
                Some(rs) => Some(ExternalReferences::from(rs)),
                None => None,
            },
            properties: match other.properties {
                Some(ps) => Some(Properties::from(ps)),
                None => None,
            },
            services: match other.services {
                Some(inner) => Some(Services::from(inner)),
                None => None,
            },
        }
    }
}

impl FromSpecImpl<models::Services> for Services {
    open spec fn obeys_from_spec() -> bool {
        false
    }

    open spec fn from_spec(other: models::Services) -> Self {
        arbitrary()
    }
}

impl From<models::Services> for Services {
    fn from(other: models::Services) -> (r: Self)
        ensures
            r@ == projected_services(other@),
        decreases other,
    {
        let mut out: Vec<Service> = Vec::new();
        let ghost all = other.0@;
        let ghost whole = other@;
        assert(whole.len() == all.len());
        assert(forall|i: int| 0 <= i < all.len() ==> whole[i] == (#[trigger] all[i])@);
        for item in it: other.0.into_iter()
            invariant
                it.seq() == all,
                all == other.0@,
                out@.len() == it.index(),
                forall|j: int|
                    0 <= j < out@.len() ==> (#[trigger] out@[j])@ == projected_service(all[j]@),
        {
            out.push(Service::from(item));
        }
        let r = Services(out);
        assert(r@ =~= projected_services(whole));
        r
    }
}

impl FromSpecImpl<Service> for models::Service {
    open spec fn obeys_from_spec() -> bool {
        false
    }

    open spec fn from_spec(other: Service) -> Self {
        arbitrary()
    }
}

impl From<Service> for models::Service {
    fn from(other: Service) -> (r: Self)
        ensures
            r@ == other@,
        decreases other,
    {
        models::Service {
            bom_ref: other.bom_ref,
            provider: match other.provider {
                Some(p) => Some(models::OrganizationalEntity::from(p)),
                None => None,
            },
            group: optional_normalized(other.group),
            name: NormalizedString::new_unchecked(other.name),
            version: optional_normalized(other.version),
            description: optional_normalized(other.description),
            endpoints: match other.endpoints {
                Some(list) => Some(uris(list)),
                None => None,
            },
            authenticated: other.authenticated,
            x_trust_boundary: other.x_trust_boundary,
            data: match other.data {
                Some(list) => Some(classifications_into(list)),
                None => None,
            },
            licenses: match other.licenses {
                Some(l) => Some(models::Licenses::from(l)),
                None => None,
            },
            external_references: match other.external_references {
                Some(rs) => Some(models::ExternalReferences::from(rs)),
                None => None,
            },
            properties: match other.properties {
                Some(ps) => Some(models::Properties::from(ps)),
                None => None,
            },
            services: match other.services {
                Some(inner) => Some(models::Services::from(inner)),
                None => None,
            },
        }
    }
}

impl FromSpecImpl<Services> for models::Services {
    open spec fn obeys_from_spec() -> bool {
        false
    }

    open spec fn from_spec(other: Services) -> Self {
        arbitrary()
    }
}

impl From<Services> for models::Services {
    fn from(other: Services) -> (r: Self)
        ensures
            r@ == other@,
        decreases other,
    {
        let mut out: Vec<models::Service> = Vec::new();
        let ghost all = other.0@;
        let ghost whole = other@;
        assert(whole.len() == all.len());
        assert(forall|i: int| 0 <= i < all.len() ==> whole[i] == (#[trigger] all[i])@);
        for item in it: other.0.into_iter()
            invariant
                it.seq() == all,
                all == other.0@,
                out@.len() == it.index(),
                forall|j: int| 0 <= j < out@.len() ==> (#[trigger] out@[j])@ == all[j]@,
        {
            out.push(models::Service::from(item));
        }
        let r = models::Services(out);
        assert(r@ =~= whole);
        r
    }
}

} // verus!
