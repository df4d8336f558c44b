use crate::errors::{result_view, ParseError, ParseErrorView, XmlWriteError};
use crate::external_models::Uri;
use crate::lookup::{
    attribute_value, child_text, lemma_first_child_of_one, lemma_lookup_step,
    lemma_opt_text_child_read_back, lemma_other_name, lemma_read_each_error,
    lemma_read_each_of_all, lemma_text_of_one, read_each,
};
use crate::markup::Node;
use crate::markup::{
    opt_text_child, text_element, AttributeView, Element, ElementView, NodeView,
};
use crate::models;
use crate::models::{
    lemma_reference_type_text_of_parse, opt_view, views, ExternalReferenceTypeView,
    ExternalReferenceView,
};
use crate::writer::{wrote, XmlWriter};
use vstd::prelude::*;
use vstd::std_specs::convert::FromSpecImpl;

verus! {

/// An external reference as version 1.3 has it: its kind is text.
#[derive(Debug, Clone, PartialEq, Eq)]
pub struct ExternalReference {
    pub external_reference_type: String,
    pub url: String,
    pub comment: Option<String>,
}

/// The external references of a record as version 1.3 has them.
#[derive(Debug, Clone, PartialEq, Eq)]
pub struct ExternalReferences(pub Vec<ExternalReference>);

impl View for ExternalReference {
    type V = ExternalReferenceView;

    open spec fn view(&self) -> ExternalReferenceView {
        ExternalReferenceView {
            external_reference_type: ExternalReferenceTypeView::parse(
                self.external_reference_type@,
            ),
            url: self.url@,
            comment: opt_view(self.comment),
        }
    }
}

impl View for ExternalReferences {
    type V = Seq<ExternalReferenceView>;

    open spec fn view(&self) -> Seq<ExternalReferenceView> {
        views(self.0@)
    }
}

/// The reference as version 1.3 holds it: its kind is the one that the
/// text of the kind names.
pub open spec fn projected_reference(r: ExternalReferenceView) -> ExternalReferenceView {
    ExternalReferenceView {
        external_reference_type: ExternalReferenceTypeView::parse(r.external_reference_type.text()),
        ..r
    }
}

/// Each reference as version 1.3 holds it.
pub open spec fn projected_references(rs: Seq<ExternalReferenceView>) -> Seq<
    ExternalReferenceView,
> {
    Seq::new(rs.len(), |i: int| projected_reference(rs[i]))
}

/// Every reference has a kind that is what its own text names.
pub open spec fn references_are_faithful(rs: Seq<ExternalReferenceView>) -> bool {
    forall|i: int| 0 <= i < rs.len() ==> (#[trigger] rs[i]).external_reference_type.is_faithful()
}

/// References whose kinds are faithful are held by version 1.3 unchanged.
pub proof fn lemma_faithful_references_unchanged(rs: Seq<ExternalReferenceView>)
    requires
        references_are_faithful(rs),
    ensures
        projected_references(rs) == rs,
{
    assert(projected_references(rs) =~= rs);
}

impl FromSpecImpl<models::ExternalReference> for ExternalReference {
    open spec fn obeys_from_spec() -> bool {
        false
    }

    open spec fn from_spec(other: models::ExternalReference) -> Self {
        arbitrary()
    }
}

impl From<models::ExternalReference> for ExternalReference {
    fn from(other: models::ExternalReference) -> (r: Self)
        ensures
            r@ == projected_reference(other@),
    {
        ExternalReference {
            external_reference_type: other.external_reference_type.to_text(),
            url: other.url.0,
            comment: other.comment,
        }
    }
}

impl FromSpecImpl<ExternalReference> for models::ExternalReference {
    open spec fn obeys_from_spec() -> bool {
        false
    }

    open spec fn from_spec(other: ExternalReference) -> Self {
        arbitrary()
    }
}

impl From<ExternalReference> for models::ExternalReference {
    fn from(other: ExternalReference) -> (r: Self)
        ensures
            r@ == other@,
    {
        models::ExternalReference {
            external_reference_type: models::ExternalReferenceType::new_unchecked(
                other.external_reference_type.as_str(),
            ),
            url: Uri(other.url),
            comment: other.comment,
        }
    }
}

impl FromSpecImpl<models::ExternalReferences> for ExternalReferences {
    open spec fn obeys_from_spec() -> bool {
        false
    }

    open spec fn from_spec(other: models::ExternalReferences) -> Self {
        arbitrary()
    }
}

impl From<models::ExternalReferences> for ExternalReferences {
    fn from(other: models::ExternalReferences) -> (r: Self)
        ensures
            r@ == projected_references(other@),
    {
        let mut out: Vec<ExternalReference> = Vec::new();
        let ghost all = other.0@;
        for item in it: other.0.into_iter()
            invariant
                it.seq() == all,
                out@.len() == it.index(),
                forall|j: int| 0 <= j < out@.len() ==> (#[trigger] out@[j])@ == projected_reference(all[j]@),
        {
            out.push(ExternalReference::from(item));
        }
        assert(views(out@) =~= projected_references(views(all)));
        ExternalReferences(out)
    }
}

impl FromSpecImpl<ExternalReferences> for models::ExternalReferences {
    open spec fn obeys_from_spec() -> bool {
        false
    }

    open spec fn from_spec(other: ExternalReferences) -> Self {
        arbitrary()
    }
}

impl From<ExternalReferences> for models::ExternalReferences {
    fn from(other: ExternalReferences) -> (r: Self)
        ensures
            r@ == other@,
    {
        let mut out: Vec<models::ExternalReference> = Vec::new();
        let ghost all = other.0@;
        for item in it: other.0.into_iter()
            invariant
                it.seq() == all,
                out@.len() == it.index(),
                forall|j: int| 0 <= j < out@.len() ==> (#[trigger] out@[j])@ == all[j]@,
        {
            out.push(models::ExternalReference::from(item));
        }
        assert(views(out@) =~= views(all));
        models::ExternalReferences(out)
    }
}

/// The markup of a reference: its kind is an attribute, its address and
/// its comment are elements.
pub open spec fn reference_element(r: ExternalReferenceView) -> ElementView {
    ElementView {
        name: "reference"@,
        attributes: seq![AttributeView { name: "type"@, value: r.external_reference_type.text() }],
        children: seq![NodeView::Element(text_element("url"@, r.url))] + opt_text_child(
            "comment"@,
            r.comment,
        ),
    }
}

/// The markup of the references: one element for each, in order, inside
/// `externalReferences`.
pub open spec fn references_element(rs: Seq<ExternalReferenceView>) -> ElementView {
    ElementView {
        name: "externalReferences"@,
        attributes: Seq::empty(),
        children: Seq::new(rs.len(), |i: int| NodeView::Element(reference_element(rs[i]))),
    }
}

impl ExternalReference {
    /// The element that stands for the reference.
    pub fn to_element(&self) -> (e: Element)
        ensures
            e@ == reference_element(self@),
    {
        let mut e = Element::new("reference");
        e.attr("type", self.external_reference_type.as_str());
        e.push_simple_tag("url", self.url.as_str());
        e.push_optional_tag("comment", &self.comment);
        proof {
            lemma_reference_type_text_of_parse(self.external_reference_type@);
        }
        assert(e@.attributes =~= reference_element(self@).attributes);
        assert(e@.children =~= reference_element(self@).children);
        e
    }
}

impl ExternalReferences {
    /// The element that stands for the references.
    pub fn to_element(&self) -> (e: Element)
        ensures
            e@ == references_element(self@),
    {
        let mut e = Element::new("externalReferences");
        let ghost want = references_element(self@).children;
        let mut i: usize = 0;
        assert(e@.children =~= want.take(0));
        while i < self.0.len()
            invariant
                i <= self.0.len(),
                want == references_element(self@).children,
                e@.name == "externalReferences"@,
                e@.attributes == Seq::<AttributeView>::empty(),
                e@.children == want.take(i as int),
            decreases self.0.len() - i,
        {
            e.push_element(self.0[i].to_element());
            assert(e@.children =~= want.take(i + 1));
            i = i + 1;
        }
        assert(want.take(i as int) =~= want);
        e
    }

    /// Writes the references as markup.
    pub fn write_xml_element(&self, writer: &mut XmlWriter) -> (r: Result<(), XmlWriteError>)
        ensures
            wrote(*old(writer), *final(writer), references_element(self@), r),
    {
        writer.write_element(&self.to_element())
    }
}

/// What a `reference` element reads as: the kind that its attribute `type`
/// names, the text of its child `url`, and the text of its child `comment`
/// if it has one. Without the attribute or without the address it cannot
/// be read.
pub open spec fn read_reference(e: ElementView) -> Result<ExternalReferenceView, ParseErrorView> {
    match attribute_value(e.attributes, "type"@) {
        None => Err(ParseErrorView::MissingAttribute { element: "reference"@, name: "type"@ }),
        Some(kind) => match child_text(e.children, "url"@) {
            None => Err(ParseErrorView::MissingElement { parent: "reference"@, name: "url"@ }),
            Some(url) => Ok(
                ExternalReferenceView {
                    external_reference_type: ExternalReferenceTypeView::parse(kind),
                    url,
                    comment: child_text(e.children, "comment"@),
                },
            ),
        },
    }
}

/// What a node inside `externalReferences` reads as: a `reference` element
/// counts, anything else is passed over.
pub open spec fn reference_reader() -> spec_fn(NodeView) -> Option<
    Result<ExternalReferenceView, ParseErrorView>,
> {
    |n: NodeView|
        match n {
            NodeView::Element(e) => if e.name == "reference"@ {
                Some(read_reference(e))
            } else {
                None
            },
            NodeView::Text(_) => None,
        }
}

/// What an `externalReferences` element reads as: its references, in order.
pub open spec fn read_references(e: ElementView) -> Result<
    Seq<ExternalReferenceView>,
    ParseErrorView,
> {
    read_each(e.children, reference_reader())
}

/// The markup of a reference reads back as the reference that version 1.3
/// holds.
pub proof fn lemma_reference_reads_back(r: ExternalReferenceView)
    ensures
        read_reference(reference_element(r)) == Ok::<_, ParseErrorView>(projected_reference(r)),
        reference_element(r).name == "reference"@,
{
    reveal_strlit("url");
    reveal_strlit("comment");
    assert("url"@.len() == 3);
    assert("comment"@.len() == 7);
    let url = seq![NodeView::Element(text_element("url"@, r.url))];
    let comment = opt_text_child("comment"@, r.comment);
    lemma_first_child_of_one(text_element("url"@, r.url));
    lemma_text_of_one(r.url);
    lemma_opt_text_child_read_back("comment"@, r.comment);
    lemma_other_name(url, "url"@, "comment"@);
    lemma_lookup_step(url, comment, "comment"@, "url"@);
    lemma_lookup_step(url, comment, "comment"@, "comment"@);
}

/// The markup of references reads back as the references that version 1.3
/// holds, in order.
pub proof fn lemma_references_read_back(rs: Seq<ExternalReferenceView>)
    ensures
        read_references(references_element(rs)) == Ok::<_, ParseErrorView>(
            projected_references(rs),
        ),
{
    let nodes = references_element(rs).children;
    let items = projected_references(rs);
    assert forall|i: int| 0 <= i < nodes.len() implies reference_reader()(#[trigger] nodes[i])
        == Some(Ok::<_, ParseErrorView>(items[i])) by {
        lemma_reference_reads_back(rs[i]);
    }
    lemma_read_each_of_all(nodes, reference_reader(), items);
}

impl ExternalReference {
    /// Reads a reference from its element.
    pub fn from_element(e: &Element) -> (r: Result<ExternalReference, ParseError>)
        ensures
            result_view(r) == read_reference(e@),
    {
        match e.attribute("type") {
            None => Err(
                ParseError::MissingAttribute {
                    element: String::from_str("reference"),
                    name: String::from_str("type"),
                },
            ),
            Some(kind) => match e.child_text("url") {
                None => Err(
                    ParseError::MissingElement {
                        parent: String::from_str("reference"),
                        name: String::from_str("url"),
                    },
                ),
                Some(url) => Ok(
                    ExternalReference {
                        external_reference_type: kind.clone(),
                        url,
                        comment: e.child_text("comment"),
                    },
                ),
            },
        }
    }
}

impl ExternalReferences {
    /// Reads the references from their element.
    pub fn from_element(e: &Element) -> (r: Result<ExternalReferences, ParseError>)
        ensures
            result_view(r) == read_references(e@),
    {
        let wanted = String::from_str("reference");
        let ghost all = e@.children;
        let mut out: Vec<ExternalReference> = Vec::new();
        let mut i: usize = 0;
        assert(all.take(0) =~= Seq::<NodeView>::empty());
        assert(views(out@) =~= Seq::<ExternalReferenceView>::empty());
        while i < e.children.len()
            invariant
                i <= e.children.len(),
                all == e@.children,
                all.len() == e.children.len(),
                wanted@ == "reference"@,
                read_each(all.take(i as int), reference_reader()) == Ok::<_, ParseErrorView>(views(out@)),
            decreases e.children.len() - i,
        {
            let ghost next = all.take(i + 1);
            let ghost before = views(out@);
            assert(next.drop_last() =~= all.take(i as int));
            assert(next.last() == all[i as int]);
            assert(all[i as int] == e.children[i as int]@);
            match &e.children[i] {
                Node::Element(child) => {
                    if child.name == wanted {
                        match ExternalReference::from_element(child) {
                            Ok(x) => {
                                out.push(x);
                                assert(views(out@) =~= before.push(x@));
                            },
                            Err(err) => {
                                proof {
                                    lemma_read_each_error(all, reference_reader(), i + 1);
                                }
                                return Err(err);
                            },
                        }
                    }
                },
                Node::Text(_) => {},
            }
            i = i + 1;
        }
        assert(all.take(i as int) =~= all);
        Ok(ExternalReferences(out))
    }
}

} // verus!
