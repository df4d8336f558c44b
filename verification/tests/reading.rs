use cyclonedx_bom::errors::ParseError;
use cyclonedx_bom::external_models::{NormalizedString, Uri};
use cyclonedx_bom::markup::{Attribute, Element, Node};
use cyclonedx_bom::models;
use cyclonedx_bom::parser::{parse_events, parse_siblings, MarkupEvent};
use cyclonedx_bom::reader::{read_element, read_events, root_of};
use cyclonedx_bom::specs::v1_3::external_reference::ExternalReferences;
use cyclonedx_bom::specs::v1_3::license::Licenses;
use cyclonedx_bom::specs::v1_3::organization::OrganizationalEntity;
use cyclonedx_bom::specs::v1_3::property::Properties;
use cyclonedx_bom::specs::v1_3::service::{DataClassification, Service, Services};
use cyclonedx_bom::writer::XmlWriter;

fn start(name: &str) -> MarkupEvent {
    MarkupEvent::Start { name: name.to_string(), attributes: vec![] }
}

fn chars(text: &str) -> MarkupEvent {
    MarkupEvent::Text(text.to_string())
}

fn simple(name: &str, text: &str) -> Node {
    Node::Element(Element {
        name: name.to_string(),
        attributes: vec![],
        children: vec![Node::Text(text.to_string())],
    })
}

#[test]
fn the_reader_hands_out_the_events_of_a_document() {
    let events = read_events(b"<a x=\"1\"><b>text</b><c/></a>").expect("a document");
    assert_eq!(
        events,
        vec![
            MarkupEvent::Start {
                name: "a".to_string(),
                attributes: vec![Attribute { name: "x".to_string(), value: "1".to_string() }],
            },
            start("b"),
            chars("text"),
            MarkupEvent::End,
            start("c"),
            MarkupEvent::End,
            MarkupEvent::End,
        ]
    );
}

#[test]
fn white_space_between_elements_comes_as_text() {
    let events = read_events(b"<a>\n  <b> </b>\n</a>").expect("a document");
    assert_eq!(
        events,
        vec![
            start("a"),
            chars("\n  "),
            start("b"),
            chars(" "),
            MarkupEvent::End,
            chars("\n"),
            MarkupEvent::End,
        ]
    );
}

#[test]
fn bytes_that_are_no_document_give_a_syntax_error() {
    match read_events(b"<a><b></a>") {
        Err(ParseError::Syntax { message }) => assert!(!message.is_empty()),
        other => panic!("expected a syntax error, got {:?}", other),
    }
    assert!(matches!(read_element(b"not markup"), Err(ParseError::Syntax { .. })));
    assert!(matches!(Services::read_xml(b""), Err(ParseError::Syntax { .. })));
}

#[test]
fn events_of_one_element_parse_to_that_element() {
    let events = vec![start("a"), chars("x"), start("b"), MarkupEvent::End, MarkupEvent::End];
    let element = parse_events(&events).expect("one element");
    assert_eq!(
        element,
        Element {
            name: "a".to_string(),
            attributes: vec![],
            children: vec![
                Node::Text("x".to_string()),
                Node::Element(Element { name: "b".to_string(), attributes: vec![], children: vec![] }),
            ],
        }
    );
}

#[test]
fn events_that_are_not_one_element_are_unbalanced() {
    assert_eq!(parse_events(&vec![]), Err(ParseError::Unbalanced));
    assert_eq!(parse_events(&vec![start("a")]), Err(ParseError::Unbalanced));
    assert_eq!(parse_events(&vec![MarkupEvent::End]), Err(ParseError::Unbalanced));
    assert_eq!(parse_events(&vec![chars("x")]), Err(ParseError::Unbalanced));
    assert_eq!(
        parse_events(&vec![start("a"), MarkupEvent::End, MarkupEvent::End]),
        Err(ParseError::Unbalanced)
    );
    assert_eq!(
        parse_events(&vec![start("a"), MarkupEvent::End, start("b"), MarkupEvent::End]),
        Err(ParseError::Unbalanced)
    );
    assert_eq!(
        parse_events(&vec![start("a"), MarkupEvent::End, chars("x")]),
        Err(ParseError::Unbalanced)
    );
}

#[test]
fn siblings_end_at_the_end_tag_of_their_parent() {
    let events = vec![chars("x"), start("b"), MarkupEvent::End, MarkupEvent::End, chars("y")];
    let (nodes, end) = parse_siblings(&events, 0).expect("balanced so far");
    assert_eq!(end, 3);
    assert_eq!(nodes.len(), 2);
    assert_eq!(parse_siblings(&events, 1), Some((vec![Node::Element(Element {
        name: "b".to_string(),
        attributes: vec![],
        children: vec![],
    })], 3)));
    assert_eq!(parse_siblings(&vec![start("a")], 0), None);
}

#[test]
fn an_error_of_the_reader_is_handed_on_as_it_is() {
    let error = ParseError::Syntax { message: "1:1 broken".to_string() };
    assert_eq!(root_of(Err(error.clone())), Err(error.clone()));
    assert_eq!(Services::from_events(Err(error.clone())), Err(error));
}

#[test]
fn lookups_pass_over_what_has_another_name() {
    let element = Element {
        name: "e".to_string(),
        attributes: vec![
            Attribute { name: "other".to_string(), value: "0".to_string() },
            Attribute { name: "key".to_string(), value: "1".to_string() },
            Attribute { name: "key".to_string(), value: "2".to_string() },
        ],
        children: vec![
            Node::Text("a".to_string()),
            simple("x", "first"),
            simple("y", "other"),
            Node::Text("b".to_string()),
            simple("x", "second"),
        ],
    };
    assert_eq!(element.attribute("key"), Some(&"1".to_string()));
    assert_eq!(element.attribute("none"), None);
    assert_eq!(element.text(), "ab");
    assert_eq!(element.child_text("x"), Some("first".to_string()));
    assert_eq!(element.child_text("z"), None);
    assert_eq!(element.texts_named("x"), vec!["first".to_string(), "second".to_string()]);
    assert_eq!(element.children_named("x").len(), 2);
    assert_eq!(element.children_named("y")[0].text(), "other");
    assert_eq!(element.first_child("y").expect("a child").text(), "other");
    assert!(element.first_child("z").is_none());
}

#[test]
fn a_service_without_a_name_cannot_be_read() {
    let root = read_element(b"<service><group>g</group></service>").expect("an element");
    assert_eq!(
        Service::from_element(&root),
        Err(ParseError::MissingElement { parent: "service".to_string(), name: "name".to_string() })
    );
}

#[test]
fn a_truth_value_must_be_true_or_false() {
    let root = read_element(b"<service><name>n</name><authenticated>yes</authenticated></service>")
        .expect("an element");
    assert_eq!(
        Service::from_element(&root),
        Err(ParseError::InvalidBoolean {
            element: "authenticated".to_string(),
            text: "yes".to_string(),
        })
    );
    let root = read_element(
        b"<service><name>n</name><x-trust-boundary>True</x-trust-boundary></service>",
    )
    .expect("an element");
    assert_eq!(
        Service::from_element(&root),
        Err(ParseError::InvalidBoolean {
            element: "x-trust-boundary".to_string(),
            text: "True".to_string(),
        })
    );
}

#[test]
fn a_classification_needs_its_flow() {
    let root = read_element(b"<classification>PII</classification>").expect("an element");
    assert_eq!(
        DataClassification::from_element(&root),
        Err(ParseError::MissingAttribute {
            element: "classification".to_string(),
            name: "flow".to_string(),
        })
    );
    let root =
        read_element(b"<service><name>n</name><data><classification>PII</classification></data></service>")
            .expect("an element");
    assert_eq!(
        Service::from_element(&root),
        Err(ParseError::MissingAttribute {
            element: "classification".to_string(),
            name: "flow".to_string(),
        })
    );
}

#[test]
fn parts_that_cannot_be_read_give_their_own_errors() {
    let root = read_element(b"<properties><property>v</property></properties>").expect("element");
    assert_eq!(
        Properties::from_element(&root),
        Err(ParseError::MissingAttribute {
            element: "property".to_string(),
            name: "name".to_string(),
        })
    );
    let root = read_element(b"<licenses><license><url>u</url></license></licenses>")
        .expect("element");
    assert_eq!(
        Licenses::from_element(&root),
        Err(ParseError::MissingElement { parent: "license".to_string(), name: "id".to_string() })
    );
    let root = read_element(
        b"<externalReferences><reference><url>u</url></reference></externalReferences>",
    )
    .expect("element");
    assert_eq!(
        ExternalReferences::from_element(&root),
        Err(ParseError::MissingAttribute {
            element: "reference".to_string(),
            name: "type".to_string(),
        })
    );
    let root = read_element(
        b"<externalReferences><reference type=\"vcs\"/></externalReferences>",
    )
    .expect("element");
    assert_eq!(
        ExternalReferences::from_element(&root),
        Err(ParseError::MissingElement { parent: "reference".to_string(), name: "url".to_string() })
    );
}

#[test]
fn the_first_error_in_the_order_of_the_schema_is_the_error() {
    let root = read_element(
        b"<service><data><classification>PII</classification></data><authenticated>no</authenticated><name>n</name></service>",
    )
    .expect("an element");
    assert_eq!(
        Service::from_element(&root),
        Err(ParseError::InvalidBoolean { element: "authenticated".to_string(), text: "no".to_string() })
    );
}

#[test]
fn the_root_of_a_document_of_services_is_named_services() {
    assert_eq!(
        Services::read_xml(b"<service><name>n</name></service>"),
        Err(ParseError::UnexpectedElement {
            expected: "services".to_string(),
            found: "service".to_string(),
        })
    );
}

#[test]
fn what_is_not_known_is_passed_over() {
    let document = b"<?xml version=\"1.0\"?>
<!-- a newer producer -->
<services future=\"1\">
  <annotation>ignored</annotation>
  <service bom-ref=\"r\" priority=\"high\">
    <name>auth</name>
    <sla><hours>24</hours></sla>
    <endpoints><endpoint>https://a</endpoint><mirror>https://b</mirror></endpoints>
    <authenticated>true</authenticated>
  </service>
  stray text
</services>";
    let services = Services::read_xml(document).expect("unknown parts are no error");
    assert_eq!(services.0.len(), 1);
    let service = &services.0[0];
    assert_eq!(service.bom_ref, Some("r".to_string()));
    assert_eq!(service.name, "auth");
    assert_eq!(service.endpoints, Some(vec!["https://a".to_string()]));
    assert_eq!(service.authenticated, Some(true));
    assert_eq!(service.x_trust_boundary, None);
    assert_eq!(service.services, None);
}

#[test]
fn an_organization_is_read_from_its_children() {
    let root = read_element(
        b"<provider><name>n</name><url>u1</url><url>u2</url><contact><email>e</email></contact></provider>",
    )
    .expect("an element");
    let entity = OrganizationalEntity::from_element(&root);
    assert_eq!(entity.name, Some("n".to_string()));
    assert_eq!(entity.url, Some(vec!["u1".to_string(), "u2".to_string()]));
    let contacts = entity.contact.expect("contacts");
    assert_eq!(contacts.len(), 1);
    assert_eq!(contacts[0].name, None);
    assert_eq!(contacts[0].email, Some("e".to_string()));
    let bare = OrganizationalEntity::from_element(&read_element(b"<provider/>").expect("element"));
    assert_eq!(bare.url, None);
    assert_eq!(bare.contact, None);
}

fn normalized(value: &str) -> NormalizedString {
    NormalizedString::new(value).expect("normalized text")
}

fn scenario_service() -> models::Service {
    models::Service {
        bom_ref: None,
        provider: None,
        group: None,
        name: NormalizedString::new_required("auth-service").expect("a name"),
        version: None,
        description: None,
        endpoints: Some(vec![Uri::new("https://svc/auth").expect("a URI")]),
        authenticated: Some(true),
        x_trust_boundary: None,
        data: Some(vec![models::DataClassification {
            flow: models::DataFlowType::new_unchecked("outbound"),
            classification: normalized("PII"),
        }]),
        licenses: None,
        external_references: None,
        properties: None,
        services: None,
    }
}

fn position(haystack: &str, needle: &str) -> usize {
    haystack.find(needle).unwrap_or_else(|| panic!("{} is missing in {}", needle, haystack))
}

#[test]
fn a_canonical_service_is_exported_and_read_back() {
    let projected = Services(vec![Service::from(scenario_service())]);
    let mut writer = XmlWriter::new(true);
    projected.write_xml_element(&mut writer).expect("the sink takes every event");
    let bytes = writer.into_bytes();
    let output = String::from_utf8(bytes.clone()).expect("UTF-8");

    let service = position(&output, "<service>");
    let name = position(&output, "<name>auth-service</name>");
    let endpoints = position(&output, "<endpoints>");
    let endpoint = position(&output, "<endpoint>https://svc/auth</endpoint>");
    let endpoints_end = position(&output, "</endpoints>");
    let authenticated = position(&output, "<authenticated>true</authenticated>");
    let data = position(&output, "<data>");
    let classification = position(&output, "<classification flow=\"outbound\">PII</classification>");
    let data_end = position(&output, "</data>");
    let service_end = position(&output, "</service>");
    let order = [
        service, name, endpoints, endpoint, endpoints_end, authenticated, data, classification,
        data_end, service_end,
    ];
    assert!(order.windows(2).all(|pair| pair[0] < pair[1]), "order in {}", output);

    let read = Services::read_xml(&bytes).expect("what was written can be read");
    assert_eq!(read, Services(vec![Service::from(scenario_service())]));
    let back: models::Services = read.into();
    assert_eq!(back, models::Services(vec![scenario_service()]));
    assert_eq!(back.0[0].data.as_ref().expect("data")[0].flow, models::DataFlowType::Outbound);
}

fn named(name: &str) -> Service {
    let mut canonical = scenario_service();
    canonical.name = normalized(name);
    Service::from(canonical)
}

#[test]
fn three_services_are_read_back_in_the_order_they_were_written() {
    for indent in [false, true] {
        let written = Services(vec![named("A"), named("B"), named("C")]);
        let mut writer = XmlWriter::new(indent);
        written.write_xml_element(&mut writer).expect("written");
        let read = Services::read_xml(&writer.into_bytes()).expect("read");
        let names: Vec<&str> = read.0.iter().map(|s| s.name.as_str()).collect();
        assert_eq!(names, vec!["A", "B", "C"]);
        assert_eq!(read, written);
    }
}

#[test]
fn an_empty_list_of_services_is_read_back_empty() {
    let mut writer = XmlWriter::new(false);
    Services(vec![]).write_xml_element(&mut writer).expect("written");
    let bytes = writer.into_bytes();
    assert_eq!(
        String::from_utf8(bytes.clone()).expect("UTF-8"),
        "<?xml version=\"1.0\" encoding=\"UTF-8\"?><services />"
    );
    assert_eq!(Services::read_xml(&bytes), Ok(Services(vec![])));
}

#[test]
fn an_unknown_flow_is_read_back_as_it_was_written() {
    let mut service = named("name");
    service.data = Some(vec![DataClassification {
        flow: "sidewaysFlow".to_string(),
        classification: "PII".to_string(),
    }]);
    let mut writer = XmlWriter::new(true);
    Services(vec![service]).write_xml_element(&mut writer).expect("written");
    let read = Services::read_xml(&writer.into_bytes()).expect("read");
    assert_eq!(read.0[0].data.as_ref().expect("data")[0].flow, "sidewaysFlow");
}

#[test]
fn absent_and_empty_lists_are_told_apart_when_read_back() {
    let mut absent = named("absent");
    absent.endpoints = None;
    absent.data = None;
    let mut empty = named("empty");
    empty.endpoints = Some(vec![]);
    empty.data = Some(vec![]);
    empty.services = Some(Services(vec![]));
    let written = Services(vec![absent, empty]);
    let mut writer = XmlWriter::new(true);
    written.write_xml_element(&mut writer).expect("written");
    let read = Services::read_xml(&writer.into_bytes()).expect("read");
    assert_eq!(read.0[0].endpoints, None);
    assert_eq!(read.0[0].data, None);
    assert_eq!(read.0[1].endpoints, Some(vec![]));
    assert_eq!(read.0[1].data, Some(vec![]));
    assert_eq!(read.0[1].services, Some(Services(vec![])));
    assert_eq!(read, written);
}

#[test]
fn text_that_needs_escaping_is_read_back_as_it_was() {
    let mut service = named("a<b & \"c\"");
    service.bom_ref = Some("x\"<y>".to_string());
    service.description = Some("  spaced  ".to_string());
    let written = Services(vec![service]);
    let mut writer = XmlWriter::new(true);
    written.write_xml_element(&mut writer).expect("written");
    let read = Services::read_xml(&writer.into_bytes()).expect("read");
    assert_eq!(read, written);
}
