//! The canonical model: the document's records as every schema version
//! sees them, and the mathematical values they stand for.
use crate::external_models::{NormalizedString, Uri};
use vstd::prelude::*;

verus! {

broadcast use vstd::std_specs::vec::axiom_vec_index_decreases;

/// The views of the items of `items`, in order.
pub open spec fn views<T: View>(items: Seq<T>) -> Seq<T::V> {
    Seq::new(items.len(), |i: int| items[i]@)
}

/// The view of an optional item.
pub open spec fn opt_view<T: View>(item: Option<T>) -> Option<T::V> {
    match item {
        Some(x) => Some(x@),
        None => None,
    }
}

/// The views of the items of an optional list.
pub open spec fn opt_views<T: View>(items: Option<Vec<T>>) -> Option<Seq<T::V>> {
    match items {
        Some(v) => Some(views(v@)),
        None => None,
    }
}

/// The direction in which data flows through a service. The set is open:
/// text that names no known direction is kept as it came.
#[derive(Debug, Clone, PartialEq, Eq)]
pub enum DataFlowType {
    Inbound,
    Outbound,
    BiDirectional,
    Unknown,
    UnknownDataFlow(String),
}

pub enum DataFlowTypeView {
    Inbound,
    Outbound,
    BiDirectional,
    Unknown,
    UnknownDataFlow(Seq<char>),
}

impl View for DataFlowType {
    type V = DataFlowTypeView;

    open spec fn view(&self) -> DataFlowTypeView {
        match self {
            DataFlowType::Inbound => DataFlowTypeView::Inbound,
            DataFlowType::Outbound => DataFlowTypeView::Outbound,
            DataFlowType::BiDirectional => DataFlowTypeView::BiDirectional,
            DataFlowType::Unknown => DataFlowTypeView::Unknown,
            DataFlowType::UnknownDataFlow(s) => DataFlowTypeView::UnknownDataFlow(s@),
        }
    }
}

impl DataFlowTypeView {
    /// The direction that `text` names; text that names none is kept.
    pub open spec fn parse(text: Seq<char>) -> DataFlowTypeView {
        if text == "inbound"@ {
            DataFlowTypeView::Inbound
        } else if text == "outbound"@ {
            DataFlowTypeView::Outbound
        } else if text == "bi-directional"@ {
            DataFlowTypeView::BiDirectional
        } else if text == "unknown"@ {
            DataFlowTypeView::Unknown
        } else {
            DataFlowTypeView::UnknownDataFlow(text)
        }
    }

    /// The text that stands for the direction in a document.
    pub open spec fn text(self) -> Seq<char> {
        match self {
            DataFlowTypeView::Inbound => "inbound"@,
            DataFlowTypeView::Outbound => "outbound"@,
            DataFlowTypeView::BiDirectional => "bi-directional"@,
            DataFlowTypeView::Unknown => "unknown"@,
            DataFlowTypeView::UnknownDataFlow(s) => s,
        }
    }

    /// The direction is what its own text names: it is a known direction,
    /// or kept text that names none.
    pub open spec fn is_faithful(self) -> bool {
        Self::parse(self.text()) == self
    }
}

/// The four known names differ from one another.
pub proof fn lemma_flow_names_differ()
    ensures
        "inbound"@ != "outbound"@,
        "inbound"@ != "bi-directional"@,
        "inbound"@ != "unknown"@,
        "outbound"@ != "bi-directional"@,
        "outbound"@ != "unknown"@,
        "bi-directional"@ != "unknown"@,
{
    reveal_strlit("inbound");
    reveal_strlit("outbound");
    reveal_strlit("bi-directional");
    reveal_strlit("unknown");
    assert("inbound"@.len() == 7);
    assert("outbound"@.len() == 8);
    assert("bi-directional"@.len() == 14);
    assert("unknown"@.len() == 7);
    assert("inbound"@[0] == 'i');
    assert("unknown"@[0] == 'u');
}

/// Text that went into a direction comes out of it unchanged, whether it
/// names a known direction or not.
pub proof fn lemma_flow_text_of_parse(text: Seq<char>)
    ensures
        DataFlowTypeView::parse(text).text() == text,
        DataFlowTypeView::parse(text).is_faithful(),
{
}

/// Text that names no known direction is kept as `UnknownDataFlow`.
pub proof fn lemma_unknown_flow_preserved(text: Seq<char>)
    requires
        text != "inbound"@,
        text != "outbound"@,
        text != "bi-directional"@,
        text != "unknown"@,
    ensures
        DataFlowTypeView::parse(text) == DataFlowTypeView::UnknownDataFlow(text),
        DataFlowTypeView::parse(text).text() == text,
{
}

/// Each known direction is faithful.
pub proof fn lemma_known_flows_faithful()
    ensures
        DataFlowTypeView::Inbound.is_faithful(),
        DataFlowTypeView::Outbound.is_faithful(),
        DataFlowTypeView::BiDirectional.is_faithful(),
        DataFlowTypeView::Unknown.is_faithful(),
{
    lemma_flow_names_differ();
}

fn text_is(text: &str, name: &str) -> (r: bool)
    ensures
        r == (text@ == name@),
{
    let a = String::from_str(text);
    let b = String::from_str(name);
    a == b
}

impl DataFlowType {
    /// The direction that `value` names, without validation.
    pub fn new_unchecked(value: &str) -> (flow: DataFlowType)
        ensures
            flow@ == DataFlowTypeView::parse(value@),
    {
        if text_is(value, "inbound") {
            DataFlowType::Inbound
        } else if text_is(value, "outbound") {
            DataFlowType::Outbound
        } else if text_is(value, "bi-directional") {
            DataFlowType::BiDirectional
        } else if text_is(value, "unknown") {
            DataFlowType::Unknown
        } else {
            DataFlowType::UnknownDataFlow(String::from_str(value))
        }
    }

    /// The text that stands for the direction in a document.
    pub fn to_text(&self) -> (text: String)
        ensures
            text@ == self@.text(),
    {
        match self {
            DataFlowType::Inbound => String::from_str("inbound"),
            DataFlowType::Outbound => String::from_str("outbound"),
            DataFlowType::BiDirectional => String::from_str("bi-directional"),
            DataFlowType::Unknown => String::from_str("unknown"),
            DataFlowType::UnknownDataFlow(s) => s.clone(),
        }
    }
}

/// One kind of data that a service handles, and the direction it flows in.
#[derive(Debug, Clone, PartialEq, Eq)]
pub struct DataClassification {
    pub flow: DataFlowType,
    pub classification: NormalizedString,
}

pub struct DataClassificationView {
    pub flow: DataFlowTypeView,
    pub classification: Seq<char>,
}

impl View for DataClassification {
    type V = DataClassificationView;

    open spec fn view(&self) -> DataClassificationView {
        DataClassificationView { flow: self.flow@, classification: self.classification@ }
    }
}

/// A person to reach at an organization.
#[derive(Debug, Clone, PartialEq, Eq)]
pub struct OrganizationalContact {
    pub name: Option<NormalizedString>,
    pub email: Option<NormalizedString>,
    pub phone: Option<NormalizedString>,
}

pub struct OrganizationalContactView {
    pub name: Option<Seq<char>>,
    pub email: Option<Seq<char>>,
    pub phone: Option<Seq<char>>,
}

impl View for OrganizationalContact {
    type V = OrganizationalContactView;

    open spec fn view(&self) -> OrganizationalContactView {
        OrganizationalContactView {
            name: opt_view(self.name),
            email: opt_view(self.email),
            phone: opt_view(self.phone),
        }
    }
}

/// An organization: its name, its addresses on the web, its contacts.
#[derive(Debug, Clone, PartialEq, Eq)]
pub struct OrganizationalEntity {
    pub name: Option<NormalizedString>,
    pub url: Option<Vec<Uri>>,
    pub contact: Option<Vec<OrganizationalContact>>,
}

pub struct OrganizationalEntityView {
    pub name: Option<Seq<char>>,
    pub url: Option<Seq<Seq<char>>>,
    pub contact: Option<Seq<OrganizationalContactView>>,
}

impl View for OrganizationalEntity {
    type V = OrganizationalEntityView;

    open spec fn view(&self) -> OrganizationalEntityView {
        OrganizationalEntityView {
            name: opt_view(self.name),
            url: opt_views(self.url),
            contact: opt_views(self.contact),
        }
    }
}

/// How a license is named: by its SPDX identifier or by a free name.
#[derive(Debug, Clone, PartialEq, Eq)]
pub enum LicenseIdentifier {
    SpdxId(NormalizedString),
    Name(NormalizedString),
}

pub enum LicenseIdentifierView {
    SpdxId(Seq<char>),
    Name(Seq<char>),
}

impl View for LicenseIdentifier {
    type V = LicenseIdentifierView;

    open spec fn view(&self) -> LicenseIdentifierView {
        match self {
            LicenseIdentifier::SpdxId(s) => LicenseIdentifierView::SpdxId(s@),
            LicenseIdentifier::Name(s) => LicenseIdentifierView::Name(s@),
        }
    }
}

/// A license and where its text can be found.
#[derive(Debug, Clone, PartialEq, Eq)]
pub struct License {
    pub license_identifier: LicenseIdentifier,
    pub url: Option<Uri>,
}

pub struct LicenseView {
    pub license_identifier: LicenseIdentifierView,
    pub url: Option<Seq<char>>,
}

impl View for License {
    type V = LicenseView;

    open spec fn view(&self) -> LicenseView {
        LicenseView { license_identifier: self.license_identifier@, url: opt_view(self.url) }
    }
}

/// A license declaration: one license, or an expression over several.
#[derive(Debug, Clone, PartialEq, Eq)]
pub enum LicenseChoice {
    License(License),
    Expression(NormalizedString),
}

pub enum LicenseChoiceView {
    License(LicenseView),
    Expression(Seq<char>),
}

impl View for LicenseChoice {
    type V = LicenseChoiceView;

    open spec fn view(&self) -> LicenseChoiceView {
        match self {
            LicenseChoice::License(l) => LicenseChoiceView::License(l@),
            LicenseChoice::Expression(e) => LicenseChoiceView::Expression(e@),
        }
    }
}

/// The license declarations of a record, in order.
#[derive(Debug, Clone, PartialEq, Eq)]
pub struct Licenses(pub Vec<LicenseChoice>);

impl View for Licenses {
    type V = Seq<LicenseChoiceView>;

    open spec fn view(&self) -> Seq<LicenseChoiceView> {
        views(self.0@)
    }
}

/// What an external reference points at. The set is open: text that names
/// no known kind is kept as it came.
#[derive(Debug, Clone, PartialEq, Eq)]
pub enum ExternalReferenceType {
    Vcs,
    IssueTracker,
    Website,
    Advisories,
    Bom,
    MailingList,
    Social,
    Chat,
    Documentation,
    Support,
    Distribution,
    License,
    BuildMeta,
    BuildSystem,
    Other,
    UnknownExternalReferenceType(String),
}

pub enum ExternalReferenceTypeView {
    Vcs,
    IssueTracker,
    Website,
    Advisories,
    Bom,
    MailingList,
    Social,
    Chat,
    Documentation,
    Support,
    Distribution,
    License,
    BuildMeta,
    BuildSystem,
    Other,
    UnknownExternalReferenceType(Seq<char>),
}

impl View for ExternalReferenceType {
    type V = ExternalReferenceTypeView;

    open spec fn view(&self) -> ExternalReferenceTypeView {
        match self {
            ExternalReferenceType::Vcs => ExternalReferenceTypeView::Vcs,
            ExternalReferenceType::IssueTracker => ExternalReferenceTypeView::IssueTracker,
            ExternalReferenceType::Website => ExternalReferenceTypeView::Website,
            ExternalReferenceType::Advisories => ExternalReferenceTypeView::Advisories,
            ExternalReferenceType::Bom => ExternalReferenceTypeView::Bom,
            ExternalReferenceType::MailingList => ExternalReferenceTypeView::MailingList,
            ExternalReferenceType::Social => ExternalReferenceTypeView::Social,
            ExternalReferenceType::Chat => ExternalReferenceTypeView::Chat,
            ExternalReferenceType::Documentation => ExternalReferenceTypeView::Documentation,
            ExternalReferenceType::Support => ExternalReferenceTypeView::Support,
            ExternalReferenceType::Distribution => ExternalReferenceTypeView::Distribution,
            ExternalReferenceType::License => ExternalReferenceTypeView::License,
            ExternalReferenceType::BuildMeta => ExternalReferenceTypeView::BuildMeta,
            ExternalReferenceType::BuildSystem => ExternalReferenceTypeView::BuildSystem,
            ExternalReferenceType::Other => ExternalReferenceTypeView::Other,
            ExternalReferenceType::UnknownExternalReferenceType(s) => {
                ExternalReferenceTypeView::UnknownExternalReferenceType(s@)
            },
        }
    }
}

impl ExternalReferenceTypeView {
    /// The kind that `text` names; text that names none is kept.
    pub open spec fn parse(text: Seq<char>) -> ExternalReferenceTypeView {
        if text == "vcs"@ {
            ExternalReferenceTypeView::Vcs
        } else if text == "issue-tracker"@ {
            ExternalReferenceTypeView::IssueTracker
        } else if text == "website"@ {
            ExternalReferenceTypeView::Website
        } else if text == "advisories"@ {
            ExternalReferenceTypeView::Advisories
        } else if text == "bom"@ {
            ExternalReferenceTypeView::Bom
        } else if text == "mailing-list"@ {
            ExternalReferenceTypeView::MailingList
        } else if text == "social"@ {
            ExternalReferenceTypeView::Social
        } else if text == "chat"@ {
            ExternalReferenceTypeView::Chat
        } else if text == "documentation"@ {
            ExternalReferenceTypeView::Documentation
        } else if text == "support"@ {
            ExternalReferenceTypeView::Support
        } else if text == "distribution"@ {
            ExternalReferenceTypeView::Distribution
        } else if text == "license"@ {
            ExternalReferenceTypeView::License
        } else if text == "build-meta"@ {
            ExternalReferenceTypeView::BuildMeta
        } else if text == "build-system"@ {
            ExternalReferenceTypeView::BuildSystem
        } else if text == "other"@ {
            ExternalReferenceTypeView::Other
        } else {
            ExternalReferenceTypeView::UnknownExternalReferenceType(text)
        }
    }

    /// The text that stands for the kind in a document.
    pub open spec fn text(self) -> Seq<char> {
        match self {
            ExternalReferenceTypeView::Vcs => "vcs"@,
            ExternalReferenceTypeView::IssueTracker => "issue-tracker"@,
            ExternalReferenceTypeView::Website => "website"@,
            ExternalReferenceTypeView::Advisories => "advisories"@,
            ExternalReferenceTypeView::Bom => "bom"@,
            ExternalReferenceTypeView::MailingList => "mailing-list"@,
            ExternalReferenceTypeView::Social => "social"@,
            ExternalReferenceTypeView::Chat => "chat"@,
            ExternalReferenceTypeView::Documentation => "documentation"@,
            ExternalReferenceTypeView::Support => "support"@,
            ExternalReferenceTypeView::Distribution => "distribution"@,
            ExternalReferenceTypeView::License => "license"@,
            ExternalReferenceTypeView::BuildMeta => "build-meta"@,
            ExternalReferenceTypeView::BuildSystem => "build-system"@,
            ExternalReferenceTypeView::Other => "other"@,
            ExternalReferenceTypeView::UnknownExternalReferenceType(s) => s,
        }
    }

    /// The kind is what its own text names: it is a known kind, or kept
    /// text that names none.
    pub open spec fn is_faithful(self) -> bool {
        Self::parse(self.text()) == self
    }
}

/// Text that went into a kind comes out of it unchanged, whether it names
/// a known kind or not.
pub proof fn lemma_reference_type_text_of_parse(text: Seq<char>)
    ensures
        ExternalReferenceTypeView::parse(text).text() == text,
        ExternalReferenceTypeView::parse(text).is_faithful(),
{
}

impl ExternalReferenceType {
    /// The kind that `value` names, without validation.
    pub fn new_unchecked(value: &str) -> (kind: ExternalReferenceType)
        ensures
            kind@ == ExternalReferenceTypeView::parse(value@),
    {
        if text_is(value, "vcs") {
            ExternalReferenceType::Vcs
        } else if text_is(value, "issue-tracker") {
            ExternalReferenceType::IssueTracker
        } else if text_is(value, "website") {
            ExternalReferenceType::Website
        } else if text_is(value, "advisories") {
            ExternalReferenceType::Advisories
        } else if text_is(value, "bom") {
            ExternalReferenceType::Bom
        } else if text_is(value, "mailing-list") {
            ExternalReferenceType::MailingList
        } else if text_is(value, "social") {
            ExternalReferenceType::Social
        } else if text_is(value, "chat") {
            ExternalReferenceType::Chat
        } else if text_is(value, "documentation") {
            ExternalReferenceType::Documentation
        } else if text_is(value, "support") {
            ExternalReferenceType::Support
        } else if text_is(value, "distribution") {
            ExternalReferenceType::Distribution
        } else if text_is(value, "license") {
            ExternalReferenceType::License
        } else if text_is(value, "build-meta") {
            ExternalReferenceType::BuildMeta
        } else if text_is(value, "build-system") {
            ExternalReferenceType::BuildSystem
        } else if text_is(value, "other") {
            ExternalReferenceType::Other
        } else {
            ExternalReferenceType::UnknownExternalReferenceType(String::from_str(value))
        }
    }

    /// The text that stands for the kind in a document.
    pub fn to_text(&self) -> (text: String)
        ensures
            text@ == self@.text(),
    {
        match self {
            ExternalReferenceType::Vcs => String::from_str("vcs"),
            ExternalReferenceType::IssueTracker => String::from_str("issue-tracker"),
            ExternalReferenceType::Website => String::from_str("website"),
            ExternalReferenceType::Advisories => String::from_str("advisories"),
            ExternalReferenceType::Bom => String::from_str("bom"),
            ExternalReferenceType::MailingList => String::from_str("mailing-list"),
            ExternalReferenceType::Social => String::from_str("social"),
            ExternalReferenceType::Chat => String::from_str("chat"),
            ExternalReferenceType::Documentation => String::from_str("documentation"),
            ExternalReferenceType::Support => String::from_str("support"),
            ExternalReferenceType::Distribution => String::from_str("distribution"),
            ExternalReferenceType::License => String::from_str("license"),
            ExternalReferenceType::BuildMeta => String::from_str("build-meta"),
            ExternalReferenceType::BuildSystem => String::from_str("build-system"),
            ExternalReferenceType::Other => String::from_str("other"),
            ExternalReferenceType::UnknownExternalReferenceType(s) => s.clone(),
        }
    }
}

/// A pointer to something outside the document, and what it points at.
#[derive(Debug, Clone, PartialEq, Eq)]
pub struct ExternalReference {
    pub external_reference_type: ExternalReferenceType,
    pub url: Uri,
    pub comment: Option<String>,
}

pub struct ExternalReferenceView {
    pub external_reference_type: ExternalReferenceTypeView,
    pub url: Seq<char>,
    pub comment: Option<Seq<char>>,
}

impl View for ExternalReference {
    type V = ExternalReferenceView;

    open spec fn view(&self) -> ExternalReferenceView {
        ExternalReferenceView {
            external_reference_type: self.external_reference_type@,
            url: self.url@,
            comment: opt_view(self.comment),
        }
    }
}

/// The external references of a record, in order.
#[derive(Debug, Clone, PartialEq, Eq)]
pub struct ExternalReferences(pub Vec<ExternalReference>);

impl View for ExternalReferences {
    type V = Seq<ExternalReferenceView>;

    open spec fn view(&self) -> Seq<ExternalReferenceView> {
        views(self.0@)
    }
}

/// A name with a value, for what the schema has no field for.
#[derive(Debug, Clone, PartialEq, Eq)]
pub struct Property {
    pub name: String,
    pub value: NormalizedString,
}

pub struct PropertyView {
    pub name: Seq<char>,
    pub value: Seq<char>,
}

impl View for Property {
    type V = PropertyView;

    open spec fn view(&self) -> PropertyView {
        PropertyView { name: self.name@, value: self.value@ }
    }
}

/// The properties of a record, in order.
#[derive(Debug, Clone, PartialEq, Eq)]
pub struct Properties(pub Vec<Property>);

impl View for Properties {
    type V = Seq<PropertyView>;

    open spec fn view(&self) -> Seq<PropertyView> {
        views(self.0@)
    }
}

/// A service: what it is called, who provides it, where it listens, what
/// data it handles, and the services it is made of.
#[derive(Debug, PartialEq, Eq)]
pub struct Service {
    pub bom_ref: Option<String>,
    pub provider: Option<OrganizationalEntity>,
    pub group: Option<NormalizedString>,
    pub name: NormalizedString,
    pub version: Option<NormalizedString>,
    pub description: Option<NormalizedString>,
    pub endpoints: Option<Vec<Uri>>,
    pub authenticated: Option<bool>,
    pub x_trust_boundary: Option<bool>,
    pub data: Option<Vec<DataClassification>>,
    pub licenses: Option<Licenses>,
    pub external_references: Option<ExternalReferences>,
    pub properties: Option<Properties>,
    pub services: Option<Services>,
}

/// The services of a document or of a service, in order.
#[derive(Debug, PartialEq, Eq)]
pub struct Services(pub Vec<Service>);

pub struct ServiceView {
    pub bom_ref: Option<Seq<char>>,
    pub provider: Option<OrganizationalEntityView>,
    pub group: Option<Seq<char>>,
    pub name: Seq<char>,
    pub version: Option<Seq<char>>,
    pub description: Option<Seq<char>>,
    pub endpoints: Option<Seq<Seq<char>>>,
    pub authenticated: Option<bool>,
    pub x_trust_boundary: Option<bool>,
    pub data: Option<Seq<DataClassificationView>>,
    pub licenses: Option<Seq<LicenseChoiceView>>,
    pub external_references: Option<Seq<ExternalReferenceView>>,
    pub properties: Option<Seq<PropertyView>>,
    pub services: Option<Seq<ServiceView>>,
}

impl View for Service {
    type V = ServiceView;

    open spec fn view(&self) -> ServiceView {
        service_view(*self)
    }
}

impl View for Services {
    type V = Seq<ServiceView>;

    open spec fn view(&self) -> Seq<ServiceView> {
        services_view(*self)
    }
}

/// The value that a service stands for.
pub open spec fn service_view(s: Service) -> ServiceView
    decreases s,
{
    ServiceView {
        bom_ref: opt_view(s.bom_ref),
        provider: opt_view(s.provider),
        group: opt_view(s.group),
        name: s.name@,
        version: opt_view(s.version),
        description: opt_view(s.description),
        endpoints: opt_views(s.endpoints),
        authenticated: s.authenticated,
        x_trust_boundary: s.x_trust_boundary,
        data: opt_views(s.data),
        licenses: opt_view(s.licenses),
        external_references: opt_view(s.external_references),
        properties: opt_view(s.properties),
        services: match s.services {
            Some(inner) => Some(services_view(inner)),
            None => None,
        },
    }
}

/// The values that the services of a list stand for, in order.
pub open spec fn services_view(list: Services) -> Seq<ServiceView>
    decreases list,
{
    Seq::new(
        list.0@.len(),
        |i: int|
            if 0 <= i < list.0.len() {
                service_view(list.0[i])
            } else {
                arbitrary()
            },
    )
}

} // verus!
