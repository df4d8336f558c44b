use crate::markup::{
    opt_text_child, text_children, wrapper_element, AttributeView, Element, ElementView, NodeView,
};
use crate::lookup::{
    all_named, child_text, children_named, lemma_lookup_step, lemma_opt_text_child_read_back,
    lemma_other_name, lemma_other_name_texts, lemma_own_name, lemma_text_children_read_back,
    texts_named,
};
use crate::models;
use crate::models::{
    opt_view, opt_views, views, OrganizationalContactView, OrganizationalEntityView,
};
use crate::utilities::{optional_normalized, optional_text, uri_texts, uris};
use crate::errors::XmlWriteError;
use crate::writer::{wrote, XmlWriter};
use vstd::prelude::*;
use vstd::std_specs::convert::FromSpecImpl;

verus! {

/// A contact as version 1.3 has it.
#[derive(Debug, Clone, PartialEq, Eq)]
pub struct OrganizationalContact {
    pub name: Option<String>,
    pub email: Option<String>,
    pub phone: Option<String>,
}

/// An organization as version 1.3 has it.
#[derive(Debug, Clone, PartialEq, Eq)]
pub struct OrganizationalEntity {
    pub name: Option<String>,
    pub url: Option<Vec<String>>,
    pub contact: Option<Vec<OrganizationalContact>>,
}

impl View for OrganizationalContact {
    type V = OrganizationalContactView;

    open spec fn view(&self) -> OrganizationalContactView {
        OrganizationalContactView {
            name: opt_view(self.name),
            email: opt_view(self.email),
            phone: opt_view(self.phone),
        }
    }
}

impl View for OrganizationalEntity {
    type V = OrganizationalEntityView;

    open spec fn view(&self) -> OrganizationalEntityView {
        OrganizationalEntityView {
            name: opt_view(self.name),
            url: opt_views(self.url),
            contact: opt_views(self.contact),
        }
    }
}

impl FromSpecImpl<models::OrganizationalContact> for OrganizationalContact {
    open spec fn obeys_from_spec() -> bool {
        false
    }

    open spec fn from_spec(other: models::OrganizationalContact) -> Self {
        arbitrary()
    }
}

impl From<models::OrganizationalContact> for OrganizationalContact {
    fn from(other: models::OrganizationalContact) -> (r: Self)
        ensures
            r@ == other@,
    {
        OrganizationalContact {
            name: optional_text(other.name),
            email: optional_text(other.email),
            phone: optional_text(other.phone),
        }
    }
}

impl FromSpecImpl<OrganizationalContact> for models::OrganizationalContact {
    open spec fn obeys_from_spec() -> bool {
        false
    }

    open spec fn from_spec(other: OrganizationalContact) -> Self {
        arbitrary()
    }
}

impl From<OrganizationalContact> for models::OrganizationalContact {
    fn from(other: OrganizationalContact) -> (r: Self)
        ensures
            r@ == other@,
    {
        models::OrganizationalContact {
            name: optional_normalized(other.name),
            email: optional_normalized(other.email),
            phone: optional_normalized(other.phone),
        }
    }
}

impl FromSpecImpl<models::OrganizationalEntity> for OrganizationalEntity {
    open spec fn obeys_from_spec() -> bool {
        false
    }

    open spec fn from_spec(other: models::OrganizationalEntity) -> Self {
        arbitrary()
    }
}

impl From<models::OrganizationalEntity> for OrganizationalEntity {
    fn from(other: models::OrganizationalEntity) -> (r: Self)
        ensures
            r@ == other@,
    {
        let url = match other.url {
            Some(list) => Some(uri_texts(list)),
            None => None,
        };
        let contact = match other.contact {
            Some(list) => {
                let mut out: Vec<OrganizationalContact> = Vec::new();
                let ghost all = list@;
                for item in it: list.into_iter()
                    invariant
                        it.seq() == all,
                        out@.len() == it.index(),
                        forall|j: int| 0 <= j < out@.len() ==> (#[trigger] out@[j])@ == all[j]@,
                {
                    out.push(OrganizationalContact::from(item));
                }
                assert(views(out@) =~= views(all));
                Some(out)
            },
            None => None,
        };
        OrganizationalEntity { name: optional_text(other.name), url, contact }
    }
}

impl FromSpecImpl<OrganizationalEntity> for models::OrganizationalEntity {
    open spec fn obeys_from_spec() -> bool {
        false
    }

    open spec fn from_spec(other: OrganizationalEntity) -> Self {
        arbitrary()
    }
}

impl From<OrganizationalEntity> for models::OrganizationalEntity {
    fn from(other: OrganizationalEntity) -> (r: Self)
        ensures
            r@ == other@,
    {
        let url = match other.url {
            Some(list) => Some(uris(list)),
            None => None,
        };
        let contact = match other.contact {
            Some(list) => {
                let mut out: Vec<models::OrganizationalContact> = Vec::new();
                let ghost all = list@;
                for item in it: list.into_iter()
                    invariant
                        it.seq() == all,
                        out@.len() == it.index(),
                        forall|j: int| 0 <= j < out@.len() ==> (#[trigger] out@[j])@ == all[j]@,
                {
                    out.push(models::OrganizationalContact::from(item));
                }
                assert(views(out@) =~= views(all));
                Some(out)
            },
            None => None,
        };
        models::OrganizationalEntity { name: optional_normalized(other.name), url, contact }
    }
}

/// The markup of a contact: name, e-mail address and telephone number, each
/// only if present, in this order.
pub open spec fn contact_element(c: OrganizationalContactView) -> ElementView {
    wrapper_element(
        "contact"@,
        opt_text_child("name"@, c.name) + opt_text_child("email"@, c.email) + opt_text_child(
            "phone"@,
            c.phone,
        ),
    )
}

/// One `url` element for each address; nothing where the list is absent.
pub open spec fn url_children(url: Option<Seq<Seq<char>>>) -> Seq<NodeView> {
    match url {
        Some(list) => text_children("url"@, list),
        None => Seq::empty(),
    }
}

/// One `contact` element for each contact; nothing where the list is absent.
pub open spec fn contact_children(contact: Option<Seq<OrganizationalContactView>>) -> Seq<
    NodeView,
> {
    match contact {
        Some(list) => Seq::new(list.len(), |i: int| NodeView::Element(contact_element(list[i]))),
        None => Seq::empty(),
    }
}

/// The markup of an organization under the name `tag`: its name, its
/// addresses, its contacts, in this order.
pub open spec fn entity_element(tag: Seq<char>, e: OrganizationalEntityView) -> ElementView {
    wrapper_element(
        tag,
        opt_text_child("name"@, e.name) + url_children(e.url) + contact_children(e.contact),
    )
}

impl OrganizationalContact {
    /// The element that stands for the contact.
    pub fn to_element(&self) -> (e: Element)
        ensures
            e@ == contact_element(self@),
    {
        let mut e = Element::new("contact");
        e.push_optional_tag("name", &self.name);
        e.push_optional_tag("email", &self.email);
        e.push_optional_tag("phone", &self.phone);
        assert(e@.children =~= contact_element(self@).children);
        e
    }
}

impl OrganizationalEntity {
    /// The element named `tag` that stands for the organization.
    pub fn to_named_element(&self, tag: &str) -> (e: Element)
        ensures
            e@ == entity_element(tag@, self@),
    {
        let mut e = Element::new(tag);
        e.push_optional_tag("name", &self.name);
        match &self.url {
            Some(list) => {
                e.push_simple_tags("url", list);
            },
            None => {},
        }
        let ghost head = e@.children;
        assert(head =~= opt_text_child("name"@, self@.name) + url_children(self@.url));
        match &self.contact {
            Some(list) => {
                let ghost want = contact_children(self@.contact);
                let mut i: usize = 0;
                assert(e@.children =~= head + want.take(0));
                while i < list.len()
                    invariant
                        i <= list.len(),
                        self.contact == Some(*list),
                        want == contact_children(self@.contact),
                        e@.name == tag@,
                        e@.attributes == Seq::<AttributeView>::empty(),
                        e@.children == head + want.take(i as int),
                    decreases list.len() - i,
                {
                    e.push_element(list[i].to_element());
                    assert(e@.children =~= head + want.take(i + 1));
                    i = i + 1;
                }
                assert(want.take(i as int) =~= want);
            },
            None => {
                assert(e@.children =~= head + contact_children(self@.contact));
            },
        }
        e
    }

    /// Writes the organization as markup under the name `tag`.
    pub fn write_xml_named_element(&self, writer: &mut XmlWriter, tag: &str) -> (r: Result<
        (),
        XmlWriteError,
    >)
        ensures
            wrote(*old(writer), *final(writer), entity_element(tag@, self@), r),
    {
        writer.write_element(&self.to_named_element(tag))
    }
}

/// What a `contact` element reads as: the texts of its children `name`,
/// `email` and `phone`, each if it is there.
pub open spec fn read_contact(e: ElementView) -> OrganizationalContactView {
    OrganizationalContactView {
        name: child_text(e.children, "name"@),
        email: child_text(e.children, "email"@),
        phone: child_text(e.children, "phone"@),
    }
}

/// What the `contact` children read as, in order.
pub open spec fn read_contacts(children: Seq<NodeView>) -> Seq<OrganizationalContactView> {
    let found = children_named(children, "contact"@);
    Seq::new(found.len(), |i: int| read_contact(found[i]))
}

/// A list as it stands in markup that has no wrapper: absent where there
/// is no item.
pub open spec fn some_if_any<T>(items: Seq<T>) -> Option<Seq<T>> {
    if items.len() == 0 {
        None
    } else {
        Some(items)
    }
}

/// What the element of an organization reads as: the text of its child
/// `name`, the texts of its children `url`, its children `contact`.
pub open spec fn read_entity(e: ElementView) -> OrganizationalEntityView {
    OrganizationalEntityView {
        name: child_text(e.children, "name"@),
        url: some_if_any(texts_named(e.children, "url"@)),
        contact: some_if_any(read_contacts(e.children)),
    }
}

/// The names of the children of a contact and of an organization differ.
pub proof fn lemma_organization_names_differ()
    ensures
        "name"@ != "email"@,
        "name"@ != "phone"@,
        "email"@ != "phone"@,
        "name"@ != "url"@,
        "name"@ != "contact"@,
        "url"@ != "contact"@,
{
    reveal_strlit("name");
    reveal_strlit("email");
    reveal_strlit("phone");
    reveal_strlit("url");
    reveal_strlit("contact");
    assert("name"@.len() == 4);
    assert("email"@.len() == 5 && "email"@[0] == 'e');
    assert("phone"@.len() == 5 && "phone"@[0] == 'p');
    assert("url"@.len() == 3);
    assert("contact"@.len() == 7);
}

/// The markup of a contact reads back as the contact.
pub proof fn lemma_contact_reads_back(c: OrganizationalContactView)
    ensures
        read_contact(contact_element(c)) == c,
        contact_element(c).name == "contact"@,
{
    lemma_organization_names_differ();
    let name = opt_text_child("name"@, c.name);
    let email = opt_text_child("email"@, c.email);
    let phone = opt_text_child("phone"@, c.phone);
    lemma_opt_text_child_read_back("name"@, c.name);
    lemma_opt_text_child_read_back("email"@, c.email);
    lemma_opt_text_child_read_back("phone"@, c.phone);
    lemma_other_name(name, "name"@, "email"@);
    lemma_other_name(name, "name"@, "phone"@);
    lemma_lookup_step(name, email, "email"@, "name"@);
    lemma_lookup_step(name, email, "email"@, "email"@);
    lemma_lookup_step(name, email, "email"@, "phone"@);
    lemma_lookup_step(name + email, phone, "phone"@, "name"@);
    lemma_lookup_step(name + email, phone, "phone"@, "email"@);
    lemma_lookup_step(name + email, phone, "phone"@, "phone"@);
}

/// An organization whose lists, where present, hold at least one item: the
/// markup of an organization has no place for a list without items.
pub open spec fn entity_is_markable(e: OrganizationalEntityView) -> bool {
    &&& e.url matches Some(list) ==> list.len() > 0
    &&& e.contact matches Some(list) ==> list.len() > 0
}

/// The markup of an organization reads back as the organization, where its
/// lists are absent or hold at least one item.
pub proof fn lemma_entity_reads_back(tag: Seq<char>, e: OrganizationalEntityView)
    requires
        entity_is_markable(e),
    ensures
        read_entity(entity_element(tag, e)) == e,
        entity_element(tag, e).name == tag,
{
    lemma_organization_names_differ();
    let name = opt_text_child("name"@, e.name);
    let url = url_children(e.url);
    let contact = contact_children(e.contact);
    lemma_opt_text_child_read_back("name"@, e.name);
    match e.url {
        Some(list) => {
            lemma_text_children_read_back("url"@, list);
        },
        None => {},
    }
    let contacts = match e.contact {
        Some(list) => list,
        None => Seq::empty(),
    };
    let elements = Seq::new(contacts.len(), |i: int| contact_element(contacts[i]));
    assert forall|i: int| 0 <= i < contact.len() implies #[trigger] contact[i]
        == NodeView::Element(elements[i]) && elements[i].name == "contact"@ by {
        lemma_contact_reads_back(contacts[i]);
    }
    lemma_own_name(contact, elements, "contact"@);
    assert(all_named(url, "url"@));
    assert(all_named(contact, "contact"@));
    lemma_other_name(name, "name"@, "url"@);
    lemma_other_name(name, "name"@, "contact"@);
    lemma_other_name_texts(name, "name"@, "url"@);
    lemma_lookup_step(name, url, "url"@, "name"@);
    lemma_lookup_step(name, url, "url"@, "url"@);
    lemma_lookup_step(name, url, "url"@, "contact"@);
    lemma_lookup_step(name + url, contact, "contact"@, "name"@);
    lemma_lookup_step(name + url, contact, "contact"@, "url"@);
    lemma_lookup_step(name + url, contact, "contact"@, "contact"@);
    let all = entity_element(tag, e).children;
    assert(children_named(all, "contact"@) == elements);
    assert(read_contacts(all) =~= contacts) by {
        assert forall|i: int| 0 <= i < contacts.len() implies read_contacts(all)[i]
            == contacts[i] by {
            lemma_contact_reads_back(contacts[i]);
        }
    }
    assert(texts_named(all, "url"@) == match e.url {
        Some(list) => list,
        None => Seq::empty(),
    });
}

impl OrganizationalContact {
    /// Reads a contact from its element.
    pub fn from_element(e: &Element) -> (r: OrganizationalContact)
        ensures
            r@ == read_contact(e@),
    {
        OrganizationalContact {
            name: e.child_text("name"),
            email: e.child_text("email"),
            phone: e.child_text("phone"),
        }
    }
}

impl OrganizationalEntity {
    /// Reads an organization from its element.
    pub fn from_element(e: &Element) -> (r: OrganizationalEntity)
        ensures
            r@ == read_entity(e@),
    {
        let urls = e.texts_named("url");
        let found = e.children_named("contact");
        let ghost want = read_contacts(e@.children);
        let mut contacts: Vec<OrganizationalContact> = Vec::new();
        let mut i: usize = 0;
        while i < found.len()
            invariant
                i <= found.len(),
                found@.len() == children_named(e@.children, "contact"@).len(),
                forall|j: int|
                    0 <= j < found@.len() ==> (#[trigger] found@[j])@ == children_named(
                        e@.children,
                        "contact"@,
                    )[j],
                want == read_contacts(e@.children),
                contacts@.len() == i,
                forall|j: int| 0 <= j < i ==> (#[trigger] contacts@[j])@ == want[j],
            decreases found.len() - i,
        {
            contacts.push(OrganizationalContact::from_element(found[i]));
            i = i + 1;
        }
        assert(views(contacts@) =~= want);
        OrganizationalEntity {
            name: e.child_text("name"),
            url: if urls.len() == 0 {
                None
            } else {
                Some(urls)
            },
            contact: if contacts.len() == 0 {
                None
            } else {
                Some(contacts)
            },
        }
    }
}

} // verus!
