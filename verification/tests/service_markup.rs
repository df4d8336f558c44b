use cyclonedx_bom::specs::v1_3::external_reference::{ExternalReference, ExternalReferences};
use cyclonedx_bom::specs::v1_3::license::{License, LicenseChoice, LicenseIdentifier, Licenses};
use cyclonedx_bom::specs::v1_3::organization::{OrganizationalContact, OrganizationalEntity};
use cyclonedx_bom::specs::v1_3::property::{Properties, Property};
use cyclonedx_bom::specs::v1_3::service::{DataClassification, Service, Services};
use cyclonedx_bom::writer::XmlWriter;

fn example_entity() -> OrganizationalEntity {
    OrganizationalEntity {
        name: Some("name".to_string()),
        url: Some(vec!["url".to_string()]),
        contact: Some(vec![OrganizationalContact {
            name: Some("name".to_string()),
            email: Some("email".to_string()),
            phone: Some("phone".to_string()),
        }]),
    }
}

fn example_licenses() -> Licenses {
    Licenses(vec![LicenseChoice::Expression("expression".to_string())])
}

fn example_external_references() -> ExternalReferences {
    ExternalReferences(vec![ExternalReference {
        external_reference_type: "external reference type".to_string(),
        url: "url".to_string(),
        comment: Some("comment".to_string()),
    }])
}

fn example_properties() -> Properties {
    Properties(vec![Property { name: "name".to_string(), value: "value".to_string() }])
}

fn example_data_classification() -> DataClassification {
    DataClassification { flow: "flow".to_string(), classification: "classification".to_string() }
}

fn example_service() -> Service {
    Service {
        bom_ref: Some("bom-ref".to_string()),
        provider: Some(example_entity()),
        group: Some("group".to_string()),
        name: "name".to_string(),
        version: Some("version".to_string()),
        description: Some("description".to_string()),
        endpoints: Some(vec!["endpoint".to_string()]),
        authenticated: Some(true),
        x_trust_boundary: Some(true),
        data: Some(vec![example_data_classification()]),
        licenses: Some(example_licenses()),
        external_references: Some(example_external_references()),
        properties: Some(example_properties()),
        services: Some(Services(vec![])),
    }
}

fn example_services() -> Services {
    Services(vec![example_service()])
}

fn write_element_to_string(services: &Services) -> String {
    let mut writer = XmlWriter::new(true);
    services.write_xml_element(&mut writer).expect("Should have written the element");
    String::from_utf8_lossy(&writer.into_bytes()).to_string()
}

#[test]
fn it_should_write_xml_full() {
    let xml_output = write_element_to_string(&example_services());
    let expected = "<?xml version=\"1.0\" encoding=\"UTF-8\"?>
<services>
  <service bom-ref=\"bom-ref\">
    <provider>
      <name>name</name>
      <url>url</url>
      <contact>
        <name>name</name>
        <email>email</email>
        <phone>phone</phone>
      </contact>
    </provider>
    <group>group</group>
    <name>name</name>
    <version>version</version>
    <description>description</description>
    <endpoints>
      <endpoint>endpoint</endpoint>
    </endpoints>
    <authenticated>true</authenticated>
    <x-trust-boundary>true</x-trust-boundary>
    <data>
      <classification flow=\"flow\">classification</classification>
    </data>
    <licenses>
      <expression>expression</expression>
    </licenses>
    <externalReferences>
      <reference type=\"external reference type\">
        <url>url</url>
        <comment>comment</comment>
      </reference>
    </externalReferences>
    <properties>
      <property name=\"name\">value</property>
    </properties>
    <services />
  </service>
</services>";
    assert_eq!(xml_output, expected);
}

fn bare_service(name: &str) -> Service {
    Service {
        bom_ref: None,
        provider: None,
        group: None,
        name: name.to_string(),
        version: None,
        description: None,
        endpoints: None,
        authenticated: None,
        x_trust_boundary: None,
        data: None,
        licenses: None,
        external_references: None,
        properties: None,
        services: None,
    }
}

fn service_to_string(service: &Service, indent: bool) -> String {
    let mut writer = XmlWriter::new(indent);
    service.write_xml_element(&mut writer).expect("Should have written the element");
    String::from_utf8(writer.into_bytes()).expect("the writer emits UTF-8")
}

const DECLARATION: &str = "<?xml version=\"1.0\" encoding=\"UTF-8\"?>";

#[test]
fn absent_fields_leave_no_markup() {
    let output = service_to_string(&bare_service("name"), false);
    assert_eq!(output, format!("{}<service><name>name</name></service>", DECLARATION));
}

#[test]
fn empty_lists_keep_their_wrappers() {
    let mut service = bare_service("name");
    service.endpoints = Some(vec![]);
    service.data = Some(vec![]);
    service.licenses = Some(Licenses(vec![]));
    service.external_references = Some(ExternalReferences(vec![]));
    service.properties = Some(Properties(vec![]));
    service.services = Some(Services(vec![]));
    let output = service_to_string(&service, false);
    assert_eq!(
        output,
        format!(
            "{}<service><name>name</name><endpoints /><data /><licenses /><externalReferences /><properties /><services /></service>",
            DECLARATION
        )
    );
}

#[test]
fn identity_is_an_attribute_of_the_start_tag() {
    let mut service = bare_service("name");
    service.bom_ref = Some("ref-1".to_string());
    let output = service_to_string(&service, false);
    assert_eq!(
        output,
        format!("{}<service bom-ref=\"ref-1\"><name>name</name></service>", DECLARATION)
    );
    assert!(!output.contains("<bom-ref>"));
}

#[test]
fn truth_values_are_written_in_lower_case() {
    let mut service = bare_service("name");
    service.authenticated = Some(false);
    service.x_trust_boundary = Some(true);
    let output = service_to_string(&service, false);
    assert_eq!(
        output,
        format!(
            "{}<service><name>name</name><authenticated>false</authenticated><x-trust-boundary>true</x-trust-boundary></service>",
            DECLARATION
        )
    );
}

#[test]
fn text_and_attribute_values_are_escaped_by_the_writer() {
    let mut service = bare_service("a<b & c");
    service.bom_ref = Some("x\"y".to_string());
    let output = service_to_string(&service, false);
    assert_eq!(
        output,
        format!(
            "{}<service bom-ref=\"x&quot;y\"><name>a&lt;b &amp; c</name></service>",
            DECLARATION
        )
    );
}

#[test]
fn nested_services_are_written_at_every_depth() {
    let mut inner = bare_service("inner");
    inner.services = Some(Services(vec![bare_service("innermost")]));
    let mut outer = bare_service("outer");
    outer.services = Some(Services(vec![inner, bare_service("second")]));
    let output = service_to_string(&outer, false);
    assert_eq!(
        output,
        format!(
            "{}<service><name>outer</name><services><service><name>inner</name><services><service><name>innermost</name></service></services></service><service><name>second</name></service></services></service>",
            DECLARATION
        )
    );
}

#[test]
fn a_license_is_written_with_its_name_and_address() {
    let mut service = bare_service("name");
    service.licenses = Some(Licenses(vec![
        LicenseChoice::License(License {
            license_identifier: LicenseIdentifier::SpdxId("MIT".to_string()),
            url: Some("https://mit".to_string()),
        }),
        LicenseChoice::License(License {
            license_identifier: LicenseIdentifier::Name("Own".to_string()),
            url: None,
        }),
    ]));
    let output = service_to_string(&service, false);
    assert_eq!(
        output,
        format!(
            "{}<service><name>name</name><licenses><license><id>MIT</id><url>https://mit</url></license><license><name>Own</name></license></licenses></service>",
            DECLARATION
        )
    );
}

#[test]
fn an_end_tag_that_closes_nothing_is_refused_with_the_element_named() {
    let mut writer = XmlWriter::new(false);
    let error = writer.write_end("orphan").expect_err("nothing is open");
    assert_eq!(error.element_name(), "orphan");
}

#[test]
fn a_data_classification_is_written_alone() {
    let mut writer = XmlWriter::new(false);
    example_data_classification().write_xml_element(&mut writer).expect("written");
    assert_eq!(
        String::from_utf8(writer.into_bytes()).expect("UTF-8"),
        format!("{}<classification flow=\"flow\">classification</classification>", DECLARATION)
    );
}

#[test]
fn properties_are_written_inside_their_wrapper() {
    let mut writer = XmlWriter::new(false);
    example_properties().write_xml_element(&mut writer).expect("written");
    assert_eq!(
        String::from_utf8(writer.into_bytes()).expect("UTF-8"),
        format!(
            "{}<properties><property name=\"name\">value</property></properties>",
            DECLARATION
        )
    );
}

#[test]
fn shared_records_are_written_alone() {
    let mut writer = XmlWriter::new(false);
    example_licenses().write_xml_element(&mut writer).expect("written");
    assert_eq!(
        String::from_utf8(writer.into_bytes()).expect("UTF-8"),
        format!("{}<licenses><expression>expression</expression></licenses>", DECLARATION)
    );
    let mut writer = XmlWriter::new(false);
    example_external_references().write_xml_element(&mut writer).expect("written");
    assert_eq!(
        String::from_utf8(writer.into_bytes()).expect("UTF-8"),
        format!(
            "{}<externalReferences><reference type=\"external reference type\"><url>url</url><comment>comment</comment></reference></externalReferences>",
            DECLARATION
        )
    );
    let mut writer = XmlWriter::new(false);
    example_entity().write_xml_named_element(&mut writer, "supplier").expect("written");
    assert_eq!(
        String::from_utf8(writer.into_bytes()).expect("UTF-8"),
        format!(
            "{}<supplier><name>name</name><url>url</url><contact><name>name</name><email>email</email><phone>phone</phone></contact></supplier>",
            DECLARATION
        )
    );
}

#[test]
fn an_end_tag_is_accepted_exactly_where_an_element_is_open() {
    let mut writer = XmlWriter::new(false);
    assert!(writer.write_start("a", &vec![]).is_ok());
    assert!(writer.write_text("a", "x").is_ok());
    assert!(writer.write_end("a").is_ok());
    let error = writer.write_end("a").expect_err("nothing is open any more");
    assert_eq!(error.element_name(), "a");
    assert_eq!(
        String::from_utf8(writer.into_bytes()).expect("UTF-8"),
        format!("{}<a>x</a>", DECLARATION)
    );
}

#[test]
fn two_exports_of_one_list_give_the_same_bytes() {
    for indent in [false, true] {
        let mut first = XmlWriter::new(indent);
        let mut second = XmlWriter::new(indent);
        assert!(example_services().write_xml_element(&mut first).is_ok());
        assert!(example_services().write_xml_element(&mut second).is_ok());
        assert_eq!(first.into_bytes(), second.into_bytes());
    }
}
