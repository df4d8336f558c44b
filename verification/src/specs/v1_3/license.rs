use crate::markup::{
    opt_text_child, text_element, wrapper_element, AttributeView, Element, ElementView, NodeView,
};
use crate::errors::{result_view, ParseError, ParseErrorView, XmlWriteError};
use crate::lookup::{
    child_text, lemma_first_child_of_one, lemma_lookup_step, lemma_opt_text_child_read_back,
    lemma_other_name, lemma_read_each_error, lemma_read_each_of_all, lemma_text_of_one,
    read_each, text_of,
};
use crate::markup::Node;
use crate::models;
use crate::models::{
    opt_view, views, LicenseChoiceView, LicenseIdentifierView, LicenseView,
};
use crate::external_models::NormalizedString;
use crate::utilities::{optional_uri, optional_uri_text};
use crate::writer::{wrote, XmlWriter};
use vstd::prelude::*;
use vstd::std_specs::convert::FromSpecImpl;

verus! {

/// How a license is named, as version 1.3 has it.
#[derive(Debug, Clone, PartialEq, Eq)]
pub enum LicenseIdentifier {
    SpdxId(String),
    Name(String),
}

/// A license as version 1.3 has it.
#[derive(Debug, Clone, PartialEq, Eq)]
pub struct License {
    pub license_identifier: LicenseIdentifier,
    pub url: Option<String>,
}

/// A license declaration as version 1.3 has it.
#[derive(Debug, Clone, PartialEq, Eq)]
pub enum LicenseChoice {
    License(License),
    Expression(String),
}

/// The license declarations of a record as version 1.3 has them.
#[derive(Debug, Clone, PartialEq, Eq)]
pub struct Licenses(pub Vec<LicenseChoice>);

impl View for LicenseIdentifier {
    type V = LicenseIdentifierView;

    open spec fn view(&self) -> LicenseIdentifierView {
        match self {
            LicenseIdentifier::SpdxId(s) => LicenseIdentifierView::SpdxId(s@),
            LicenseIdentifier::Name(s) => LicenseIdentifierView::Name(s@),
        }
    }
}

impl View for License {
    type V = LicenseView;

    open spec fn view(&self) -> LicenseView {
        LicenseView { license_identifier: self.license_identifier@, url: opt_view(self.url) }
    }
}

impl View for LicenseChoice {
    type V = LicenseChoiceView;

    open spec fn view(&self) -> LicenseChoiceView {
        match self {
            LicenseChoice::License(l) => LicenseChoiceView::License(l@),
            LicenseChoice::Expression(e) => LicenseChoiceView::Expression(e@),
        }
    }
}

impl View for Licenses {
    type V = Seq<LicenseChoiceView>;

    open spec fn view(&self) -> Seq<LicenseChoiceView> {
        views(self.0@)
    }
}

impl FromSpecImpl<models::LicenseIdentifier> for LicenseIdentifier {
    open spec fn obeys_from_spec() -> bool {
        false
    }

    open spec fn from_spec(other: models::LicenseIdentifier) -> Self {
        arbitrary()
    }
}

impl From<models::LicenseIdentifier> for LicenseIdentifier {
    fn from(other: models::LicenseIdentifier) -> (r: Self)
        ensures
            r@ == other@,
    {
        match other {
            models::LicenseIdentifier::SpdxId(s) => LicenseIdentifier::SpdxId(s.0),
            models::LicenseIdentifier::Name(s) => LicenseIdentifier::Name(s.0),
        }
    }
}

impl FromSpecImpl<LicenseIdentifier> for models::LicenseIdentifier {
    open spec fn obeys_from_spec() -> bool {
        false
    }

    open spec fn from_spec(other: LicenseIdentifier) -> Self {
        arbitrary()
    }
}

impl From<LicenseIdentifier> for models::LicenseIdentifier {
    fn from(other: LicenseIdentifier) -> (r: Self)
        ensures
            r@ == other@,
    {
        match other {
            LicenseIdentifier::SpdxId(s) => models::LicenseIdentifier::SpdxId(
                NormalizedString::new_unchecked(s),
            ),
            LicenseIdentifier::Name(s) => models::LicenseIdentifier::Name(
                NormalizedString::new_unchecked(s),
            ),
        }
    }
}

impl FromSpecImpl<models::License> for License {
    open spec fn obeys_from_spec() -> bool {
        false
    }

    open spec fn from_spec(other: models::License) -> Self {
        arbitrary()
    }
}

impl From<models::License> for License {
    fn from(other: models::License) -> (r: Self)
        ensures
            r@ == other@,
    {
        License {
            license_identifier: LicenseIdentifier::from(other.license_identifier),
            url: optional_uri_text(other.url),
        }
    }
}

impl FromSpecImpl<License> for models::License {
    open spec fn obeys_from_spec() -> bool {
        false
    }

    open spec fn from_spec(other: License) -> Self {
        arbitrary()
    }
}

impl From<License> for models::License {
    fn from(other: License) -> (r: Self)
        ensures
            r@ == other@,
    {
        models::License {
            license_identifier: models::LicenseIdentifier::from(other.license_identifier),
            url: optional_uri(other.url),
        }
    }
}

impl FromSpecImpl<models::LicenseChoice> for LicenseChoice {
    open spec fn obeys_from_spec() -> bool {
        false
    }

    open spec fn from_spec(other: models::LicenseChoice) -> Self {
        arbitrary()
    }
}

impl From<models::LicenseChoice> for LicenseChoice {
    fn from(other: models::LicenseChoice) -> (r: Self)
        ensures
            r@ == other@,
    {
        match other {
            models::LicenseChoice::License(l) => LicenseChoice::License(License::from(l)),
            models::LicenseChoice::Expression(e) => LicenseChoice::Expression(e.0),
        }
    }
}

impl FromSpecImpl<LicenseChoice> for models::LicenseChoice {
    open spec fn obeys_from_spec() -> bool {
        false
    }

    open spec fn from_spec(other: LicenseChoice) -> Self {
        arbitrary()
    }
}

impl From<LicenseChoice> for models::LicenseChoice {
    fn from(other: LicenseChoice) -> (r: Self)
        ensures
            r@ == other@,
    {
        match other {
            LicenseChoice::License(l) => models::LicenseChoice::License(models::License::from(l)),
            LicenseChoice::Expression(e) => models::LicenseChoice::Expression(
                NormalizedString::new_unchecked(e),
            ),
        }
    }
}

impl FromSpecImpl<models::Licenses> for Licenses {
    open spec fn obeys_from_spec() -> bool {
        false
    }

    open spec fn from_spec(other: models::Licenses) -> Self {
        arbitrary()
    }
}

impl From<models::Licenses> for Licenses {
    fn from(other: models::Licenses) -> (r: Self)
        ensures
            r@ == other@,
    {
        let mut out: Vec<LicenseChoice> = Vec::new();
        let ghost all = other.0@;
        for item in it: other.0.into_iter()
            invariant
                it.seq() == all,
                out@.len() == it.index(),
                forall|j: int| 0 <= j < out@.len() ==> (#[trigger] out@[j])@ == all[j]@,
        {
            out.push(LicenseChoice::from(item));
        }
        assert(views(out@) =~= views(all));
        Licenses(out)
    }
}

impl FromSpecImpl<Licenses> for models::Licenses {
    open spec fn obeys_from_spec() -> bool {
        false
    }

    open spec fn from_spec(other: Licenses) -> Self {
        arbitrary()
    }
}

impl From<Licenses> for models::Licenses {
    fn from(other: Licenses) -> (r: Self)
        ensures
            r@ == other@,
    {
        let mut out: Vec<models::LicenseChoice> = Vec::new();
        let ghost all = other.0@;
        for item in it: other.0.into_iter()
            invariant
                it.seq() == all,
                out@.len() == it.index(),
                forall|j: int| 0 <= j < out@.len() ==> (#[trigger] out@[j])@ == all[j]@,
        {
            out.push(models::LicenseChoice::from(item));
        }
        assert(views(out@) =~= views(all));
        models::Licenses(out)
    }
}

/// The markup of a license: `id` or `name`, then the address of its text
/// if there is one.
pub open spec fn license_element(l: LicenseView) -> ElementView {
    wrapper_element(
        "license"@,
        seq![
            NodeView::Element(
                match l.license_identifier {
                    LicenseIdentifierView::SpdxId(s) => text_element("id"@, s),
                    LicenseIdentifierView::Name(s) => text_element("name"@, s),
                },
            ),
        ] + opt_text_child("url"@, l.url),
    )
}

/// The markup of a license declaration: a `license` element, or the
/// expression as the text of an `expression` element.
pub open spec fn license_choice_element(c: LicenseChoiceView) -> ElementView {
    match c {
        LicenseChoiceView::License(l) => license_element(l),
        LicenseChoiceView::Expression(e) => text_element("expression"@, e),
    }
}

/// The markup of the declarations: one element for each, in order, inside
/// `licenses`.
pub open spec fn licenses_element(ls: Seq<LicenseChoiceView>) -> ElementView {
    wrapper_element(
        "licenses"@,
        Seq::new(ls.len(), |i: int| NodeView::Element(license_choice_element(ls[i]))),
    )
}

impl License {
    /// The element that stands for the license.
    pub fn to_element(&self) -> (e: Element)
        ensures
            e@ == license_element(self@),
    {
        let mut e = Element::new("license");
        match &self.license_identifier {
            LicenseIdentifier::SpdxId(s) => {
                e.push_simple_tag("id", s.as_str());
            },
            LicenseIdentifier::Name(s) => {
                e.push_simple_tag("name", s.as_str());
            },
        }
        e.push_optional_tag("url", &self.url);
        assert(e@.children =~= license_element(self@).children);
        e
    }
}

impl LicenseChoice {
    /// The element that stands for the declaration.
    pub fn to_element(&self) -> (e: Element)
        ensures
            e@ == license_choice_element(self@),
    {
        match self {
            LicenseChoice::License(l) => l.to_element(),
            LicenseChoice::Expression(text) => {
                let mut e = Element::new("expression");
                e.push_text(text.as_str());
                assert(e@.children =~= text_element("expression"@, text@).children);
                e
            },
        }
    }
}

impl Licenses {
    /// The element that stands for the declarations.
    pub fn to_element(&self) -> (e: Element)
        ensures
            e@ == licenses_element(self@),
    {
        let mut e = Element::new("licenses");
        let ghost want = licenses_element(self@).children;
        let mut i: usize = 0;
        assert(e@.children =~= want.take(0));
        while i < self.0.len()
            invariant
                i <= self.0.len(),
                want == licenses_element(self@).children,
                e@.name == "licenses"@,
                e@.attributes == Seq::<AttributeView>::empty(),
                e@.children == want.take(i as int),
            decreases self.0.len() - i,
        {
            e.push_element(self.0[i].to_element());
            assert(e@.children =~= want.take(i + 1));
            i = i + 1;
        }
        assert(want.take(i as int) =~= want);
        e
    }

    /// Writes the declarations as markup.
    pub fn write_xml_element(&self, writer: &mut XmlWriter) -> (r: Result<(), XmlWriteError>)
        ensures
            wrote(*old(writer), *final(writer), licenses_element(self@), r),
    {
        writer.write_element(&self.to_element())
    }
}

/// What a `license` element reads as: the license named by its child `id`,
/// or else by its child `name`, and the text of its child `url`. Without
/// either name it cannot be read.
pub open spec fn read_license(e: ElementView) -> Result<LicenseView, ParseErrorView> {
    match child_text(e.children, "id"@) {
        Some(id) => Ok(
            LicenseView {
                license_identifier: LicenseIdentifierView::SpdxId(id),
                url: child_text(e.children, "url"@),
            },
        ),
        None => match child_text(e.children, "name"@) {
            Some(name) => Ok(
                LicenseView {
                    license_identifier: LicenseIdentifierView::Name(name),
                    url: child_text(e.children, "url"@),
                },
            ),
            None => Err(ParseErrorView::MissingElement { parent: "license"@, name: "id"@ }),
        },
    }
}

/// What a node inside `licenses` reads as: a `license` element and an
/// `expression` element count, anything else is passed over.
pub open spec fn license_reader() -> spec_fn(NodeView) -> Option<
    Result<LicenseChoiceView, ParseErrorView>,
> {
    |n: NodeView|
        match n {
            NodeView::Element(e) => if e.name == "license"@ {
                Some(
                    match read_license(e) {
                        Ok(l) => Ok(LicenseChoiceView::License(l)),
                        Err(x) => Err(x),
                    },
                )
            } else if e.name == "expression"@ {
                Some(Ok(LicenseChoiceView::Expression(text_of(e.children))))
            } else {
                None
            },
            NodeView::Text(_) => None,
        }
}

/// What a `licenses` element reads as: its declarations, in order.
pub open spec fn read_licenses(e: ElementView) -> Result<Seq<LicenseChoiceView>, ParseErrorView> {
    read_each(e.children, license_reader())
}

/// The names that the markup of licenses uses differ where they must.
pub proof fn lemma_license_names_differ()
    ensures
        "id"@ != "name"@,
        "id"@ != "url"@,
        "name"@ != "url"@,
        "license"@ != "expression"@,
{
    reveal_strlit("id");
    reveal_strlit("name");
    reveal_strlit("url");
    reveal_strlit("license");
    reveal_strlit("expression");
    assert("id"@.len() == 2);
    assert("name"@.len() == 4);
    assert("url"@.len() == 3);
    assert("license"@.len() == 7);
    assert("expression"@.len() == 10);
}

/// The markup of a license reads back as the license.
pub proof fn lemma_license_reads_back(l: LicenseView)
    ensures
        read_license(license_element(l)) == Ok::<_, ParseErrorView>(l),
        license_element(l).name == "license"@,
{
    lemma_license_names_differ();
    let url = opt_text_child("url"@, l.url);
    lemma_opt_text_child_read_back("url"@, l.url);
    match l.license_identifier {
        LicenseIdentifierView::SpdxId(s) => {
            let first = seq![NodeView::Element(text_element("id"@, s))];
            lemma_first_child_of_one(text_element("id"@, s));
            lemma_text_of_one(s);
            lemma_other_name(first, "id"@, "url"@);
            lemma_lookup_step(first, url, "url"@, "id"@);
            lemma_lookup_step(first, url, "url"@, "url"@);
        },
        LicenseIdentifierView::Name(s) => {
            let first = seq![NodeView::Element(text_element("name"@, s))];
            lemma_first_child_of_one(text_element("name"@, s));
            lemma_text_of_one(s);
            lemma_other_name(first, "name"@, "url"@);
            lemma_other_name(first, "name"@, "id"@);
            lemma_lookup_step(first, url, "url"@, "id"@);
            lemma_lookup_step(first, url, "url"@, "name"@);
            lemma_lookup_step(first, url, "url"@, "url"@);
        },
    }
}

/// The markup of license declarations reads back as the declarations, in
/// order.
pub proof fn lemma_licenses_read_back(ls: Seq<LicenseChoiceView>)
    ensures
        read_licenses(licenses_element(ls)) == Ok::<_, ParseErrorView>(ls),
{
    lemma_license_names_differ();
    let nodes = licenses_element(ls).children;
    assert forall|i: int| 0 <= i < nodes.len() implies license_reader()(#[trigger] nodes[i])
        == Some(Ok::<_, ParseErrorView>(ls[i])) by {
        match ls[i] {
            LicenseChoiceView::License(l) => {
                lemma_license_reads_back(l);
            },
            LicenseChoiceView::Expression(e) => {
                lemma_text_of_one(e);
            },
        }
    }
    lemma_read_each_of_all(nodes, license_reader(), ls);
}

impl License {
    /// Reads a license from its element.
    pub fn from_element(e: &Element) -> (r: Result<License, ParseError>)
        ensures
            result_view(r) == read_license(e@),
    {
        let url = e.child_text("url");
        match e.child_text("id") {
            Some(id) => Ok(License { license_identifier: LicenseIdentifier::SpdxId(id), url }),
            None => match e.child_text("name") {
                Some(name) => Ok(
                    License { license_identifier: LicenseIdentifier::Name(name), url },
                ),
                None => Err(
                    ParseError::MissingElement {
                        parent: String::from_str("license"),
                        name: String::from_str("id"),
                    },
                ),
            },
        }
    }
}

impl Licenses {
    /// Reads the license declarations from their element.
    pub fn from_element(e: &Element) -> (r: Result<Licenses, ParseError>)
        ensures
            result_view(r) == read_licenses(e@),
    {
        let license = String::from_str("license");
        let expression = String::from_str("expression");
        let ghost all = e@.children;
        let mut out: Vec<LicenseChoice> = Vec::new();
        let mut i: usize = 0;
        assert(all.take(0) =~= Seq::<NodeView>::empty());
        assert(views(out@) =~= Seq::<LicenseChoiceView>::empty());
        while i < e.children.len()
            invariant
                i <= e.children.len(),
                all == e@.children,
                all.len() == e.children.len(),
                license@ == "license"@,
                expression@ == "expression"@,
                read_each(all.take(i as int), license_reader()) == Ok::<_, ParseErrorView>(views(out@)),
            decreases e.children.len() - i,
        {
            let ghost next = all.take(i + 1);
            let ghost before = views(out@);
            assert(next.drop_last() =~= all.take(i as int));
            assert(next.last() == all[i as int]);
            assert(all[i as int] == e.children[i as int]@);
            match &e.children[i] {
                Node::Element(child) => {
                    if child.name == license {
                        match License::from_element(child) {
                            Ok(l) => {
                                out.push(LicenseChoice::License(l));
                                assert(views(out@) =~= before.push(LicenseChoiceView::License(l@)));
                            },
                            Err(err) => {
                                proof {
                                    lemma_read_each_error(all, license_reader(), i + 1);
                                }
                                return Err(err);
                            },
                        }
                    } else if child.name == expression {
                        let text = child.text();
                        out.push(LicenseChoice::Expression(text));
                        assert(views(out@) =~= before.push(
                            LicenseChoiceView::Expression(text@),
                        ));
                    }
                },
                Node::Text(_) => {},
            }
            i = i + 1;
        }
        assert(all.take(i as int) =~= all);
        Ok(Licenses(out))
    }
}

} // verus!
