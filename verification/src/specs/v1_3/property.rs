use crate::errors::{result_view, ParseError, ParseErrorView, XmlWriteError};
use crate::lookup::{
    attribute_value, lemma_read_each_error, lemma_read_each_of_all, lemma_text_of_one, read_each,
    text_of,
};
use crate::external_models::NormalizedString;
use crate::markup::{AttributeView, Element, ElementView, Node, NodeView};
use crate::models;
use crate::models::PropertyView;
use crate::writer::{wrote, XmlWriter};
use vstd::prelude::*;
use vstd::std_specs::convert::FromSpecImpl;

verus! {

/// A property as version 1.3 has it.
#[derive(Debug, Clone, PartialEq, Eq)]
pub struct Property {
    pub name: String,
    pub value: String,
}

/// The properties of a record as version 1.3 has them.
#[derive(Debug, Clone, PartialEq, Eq)]
pub struct Properties(pub Vec<Property>);

impl View for Property {
    type V = PropertyView;

    open spec fn view(&self) -> PropertyView {
        PropertyView { name: self.name@, value: self.value@ }
    }
}

impl View for Properties {
    type V = Seq<PropertyView>;

    open spec fn view(&self) -> Seq<PropertyView> {
        models::views(self.0@)
    }
}

impl FromSpecImpl<models::Property> for Property {
    open spec fn obeys_from_spec() -> bool {
        false
    }

    open spec fn from_spec(other: models::Property) -> Self {
        arbitrary()
    }
}

impl From<models::Property> for Property {
    fn from(other: models::Property) -> (r: Self)
        ensures
            r@ == other@,
    {
        Property { name: other.name, value: other.value.0 }
    }
}

impl FromSpecImpl<Property> for models::Property {
    open spec fn obeys_from_spec() -> bool {
        false
    }

    open spec fn from_spec(other: Property) -> Self {
        arbitrary()
    }
}

impl From<Property> for models::Property {
    fn from(other: Property) -> (r: Self)
        ensures
            r@ == other@,
    {
        models::Property { name: other.name, value: NormalizedString::new_unchecked(other.value) }
    }
}

impl FromSpecImpl<models::Properties> for Properties {
    open spec fn obeys_from_spec() -> bool {
        false
    }

    open spec fn from_spec(other: models::Properties) -> Self {
        arbitrary()
    }
}

impl From<models::Properties> for Properties {
    fn from(other: models::Properties) -> (r: Self)
        ensures
            r@ == other@,
    {
        let mut out: Vec<Property> = Vec::new();
        let ghost all = other.0@;
        for item in it: other.0.into_iter()
            invariant
                it.seq() == all,
                out@.len() == it.index(),
                forall|j: int| 0 <= j < out@.len() ==> (#[trigger] out@[j])@ == all[j]@,
        {
            out.push(Property::from(item));
        }
        assert(models::views(out@) =~= models::views(all));
        Properties(out)
    }
}

impl FromSpecImpl<Properties> for models::Properties {
    open spec fn obeys_from_spec() -> bool {
        false
    }

    open spec fn from_spec(other: Properties) -> Self {
        arbitrary()
    }
}

impl From<Properties> for models::Properties {
    fn from(other: Properties) -> (r: Self)
        ensures
            r@ == other@,
    {
        let mut out: Vec<models::Property> = Vec::new();
        let ghost all = other.0@;
        for item in it: other.0.into_iter()
            invariant
                it.seq() == all,
                out@.len() == it.index(),
                forall|j: int| 0 <= j < out@.len() ==> (#[trigger] out@[j])@ == all[j]@,
        {
            out.push(models::Property::from(item));
        }
        assert(models::views(out@) =~= models::views(all));
        models::Properties(out)
    }
}

/// The markup of one property: its name is an attribute, its value the
/// text of the element.
pub open spec fn property_element(p: PropertyView) -> ElementView {
    ElementView {
        name: "property"@,
        attributes: seq![AttributeView { name: "name"@, value: p.name }],
        children: seq![NodeView::Text(p.value)],
    }
}

/// The markup of a list of properties: one element for each, in order,
/// inside `properties`.
pub open spec fn properties_element(ps: Seq<PropertyView>) -> ElementView {
    ElementView {
        name: "properties"@,
        attributes: Seq::empty(),
        children: Seq::new(ps.len(), |i: int| NodeView::Element(property_element(ps[i]))),
    }
}

impl Property {
    /// The element that stands for the property.
    pub fn to_element(&self) -> (e: Element)
        ensures
            e@ == property_element(self@),
    {
        let mut e = Element::new("property");
        e.attr("name", self.name.as_str());
        e.push_text(self.value.as_str());
        assert(e@.attributes =~= property_element(self@).attributes);
        assert(e@.children =~= property_element(self@).children);
        e
    }
}

impl Properties {
    /// The element that stands for the list.
    pub fn to_element(&self) -> (e: Element)
        ensures
            e@ == properties_element(self@),
    {
        let mut e = Element::new("properties");
        let mut i: usize = 0;
        while i < self.0.len()
            invariant
                i <= self.0.len(),
                e@.name == "properties"@,
                e@.attributes == Seq::<AttributeView>::empty(),
                e@.children == properties_element(self@).children.take(i as int),
            decreases self.0.len() - i,
        {
            e.push_element(self.0[i].to_element());
            assert(e@.children =~= properties_element(self@).children.take(i + 1));
            i = i + 1;
        }
        assert(e@.children =~= properties_element(self@).children);
        e
    }

    /// Writes the list as markup.
    pub fn write_xml_element(&self, writer: &mut XmlWriter) -> (r: Result<(), XmlWriteError>)
        ensures
            wrote(*old(writer), *final(writer), properties_element(self@), r),
    {
        writer.write_element(&self.to_element())
    }
}

/// What a `property` element reads as: the attribute `name` and the text
/// of the element. Without the attribute it cannot be read.
pub open spec fn read_property(e: ElementView) -> Result<PropertyView, ParseErrorView> {
    match attribute_value(e.attributes, "name"@) {
        Some(name) => Ok(PropertyView { name, value: text_of(e.children) }),
        None => Err(ParseErrorView::MissingAttribute { element: "property"@, name: "name"@ }),
    }
}

/// What a node inside `properties` reads as: a `property` element counts,
/// anything else is passed over.
pub open spec fn property_reader() -> spec_fn(NodeView) -> Option<
    Result<PropertyView, ParseErrorView>,
> {
    |n: NodeView|
        match n {
            NodeView::Element(e) => if e.name == "property"@ {
                Some(read_property(e))
            } else {
                None
            },
            NodeView::Text(_) => None,
        }
}

/// What a `properties` element reads as: its properties, in order.
pub open spec fn read_properties(e: ElementView) -> Result<Seq<PropertyView>, ParseErrorView> {
    read_each(e.children, property_reader())
}

/// The markup of a property reads back as the property.
pub proof fn lemma_property_reads_back(p: PropertyView)
    ensures
        read_property(property_element(p)) == Ok::<_, ParseErrorView>(p),
        property_element(p).name == "property"@,
{
    lemma_text_of_one(p.value);
}

/// The markup of a list of properties reads back as the list, in order.
pub proof fn lemma_properties_read_back(ps: Seq<PropertyView>)
    ensures
        read_properties(properties_element(ps)) == Ok::<_, ParseErrorView>(ps),
{
    let nodes = properties_element(ps).children;
    assert forall|i: int| 0 <= i < nodes.len() implies property_reader()(#[trigger] nodes[i])
        == Some(Ok::<_, ParseErrorView>(ps[i])) by {
        lemma_property_reads_back(ps[i]);
    }
    lemma_read_each_of_all(nodes, property_reader(), ps);
}

impl Property {
    /// Reads a property from its element.
    pub fn from_element(e: &Element) -> (r: Result<Property, ParseError>)
        ensures
            result_view(r) == read_property(e@),
    {
        match e.attribute("name") {
            Some(name) => Ok(Property { name: name.clone(), value: e.text() }),
            None => Err(
                ParseError::MissingAttribute {
                    element: String::from_str("property"),
                    name: String::from_str("name"),
                },
            ),
        }
    }
}

impl Properties {
    /// Reads the properties from their element.
    pub fn from_element(e: &Element) -> (r: Result<Properties, ParseError>)
        ensures
            result_view(r) == read_properties(e@),
    {
        let wanted = String::from_str("property");
        let ghost all = e@.children;
        let mut out: Vec<Property> = Vec::new();
        let mut i: usize = 0;
        assert(all.take(0) =~= Seq::<NodeView>::empty());
        assert(models::views(out@) =~= Seq::<PropertyView>::empty());
        while i < e.children.len()
            invariant
                i <= e.children.len(),
                all == e@.children,
                all.len() == e.children.len(),
                wanted@ == "property"@,
                read_each(all.take(i as int), property_reader()) == Ok::<_, ParseErrorView>(
                    models::views(out@),
                ),
            decreases e.children.len() - i,
        {
            let ghost next = all.take(i + 1);
            let ghost before = models::views(out@);
            assert(next.drop_last() =~= all.take(i as int));
            assert(next.last() == all[i as int]);
            assert(all[i as int] == e.children[i as int]@);
            match &e.children[i] {
                Node::Element(child) => {
                    if child.name == wanted {
                        match Property::from_element(child) {
                            Ok(p) => {
                                out.push(p);
                                assert(models::views(out@) =~= before.push(p@));
                            },
                            Err(err) => {
                                proof {
                                    lemma_read_each_error(all, property_reader(), i + 1);
                                }
                                return Err(err);
                            },
                        }
                    }
                },
                Node::Text(_) => {},
            }
            i = i + 1;
        }
        assert(all.take(i as int) =~= all);
        Ok(Properties(out))
    }
}

} // verus!
