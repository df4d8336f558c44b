use cyclonedx_bom::external_models::{NormalizedString, Uri};
use cyclonedx_bom::models;
use cyclonedx_bom::specs::v1_3::external_reference::ExternalReference;
use cyclonedx_bom::specs::v1_3::service::{DataClassification, Service, Services};

fn text(value: &str) -> NormalizedString {
    NormalizedString::new(value).expect("normalized text")
}

fn canonical_service(name: &str) -> models::Service {
    models::Service {
        bom_ref: None,
        provider: None,
        group: None,
        name: text(name),
        version: None,
        description: None,
        endpoints: None,
        authenticated: None,
        x_trust_boundary: None,
        data: None,
        licenses: None,
        external_references: None,
        properties: None,
        services: None,
    }
}

fn full_canonical_service() -> models::Service {
    models::Service {
        bom_ref: Some("bom-ref".to_string()),
        provider: Some(models::OrganizationalEntity {
            name: Some(text("name")),
            url: Some(vec![Uri::new("url").expect("a URI")]),
            contact: Some(vec![models::OrganizationalContact {
                name: Some(text("name")),
                email: Some(text("email")),
                phone: Some(text("phone")),
            }]),
        }),
        group: Some(text("group")),
        name: text("name"),
        version: Some(text("version")),
        description: Some(text("description")),
        endpoints: Some(vec![Uri::new("endpoint").expect("a URI")]),
        authenticated: Some(true),
        x_trust_boundary: Some(true),
        data: Some(vec![models::DataClassification {
            flow: models::DataFlowType::UnknownDataFlow("flow".to_string()),
            classification: text("classification"),
        }]),
        licenses: Some(models::Licenses(vec![
            models::LicenseChoice::Expression(text("expression")),
            models::LicenseChoice::License(models::License {
                license_identifier: models::LicenseIdentifier::SpdxId(text("MIT")),
                url: Some(Uri::new("https://mit").expect("a URI")),
            }),
        ])),
        external_references: Some(models::ExternalReferences(vec![models::ExternalReference {
            external_reference_type: models::ExternalReferenceType::Vcs,
            url: Uri::new("url").expect("a URI"),
            comment: Some("comment".to_string()),
        }])),
        properties: Some(models::Properties(vec![models::Property {
            name: "name".to_string(),
            value: text("value"),
        }])),
        services: Some(models::Services(vec![])),
    }
}

#[test]
fn a_full_service_goes_to_version_1_3_field_by_field() {
    let projected = Service::from(full_canonical_service());
    assert_eq!(projected.bom_ref, Some("bom-ref".to_string()));
    assert_eq!(projected.group, Some("group".to_string()));
    assert_eq!(projected.name, "name");
    assert_eq!(projected.endpoints, Some(vec!["endpoint".to_string()]));
    assert_eq!(projected.authenticated, Some(true));
    assert_eq!(
        projected.data,
        Some(vec![DataClassification {
            flow: "flow".to_string(),
            classification: "classification".to_string(),
        }])
    );
    assert_eq!(
        projected.external_references.expect("references").0,
        vec![ExternalReference {
            external_reference_type: "vcs".to_string(),
            url: "url".to_string(),
            comment: Some("comment".to_string()),
        }]
    );
    assert_eq!(projected.services, Some(Services(vec![])));
}

#[test]
fn a_service_that_goes_to_version_1_3_and_back_is_unchanged() {
    let back: models::Service = Service::from(full_canonical_service()).into();
    assert_eq!(back, full_canonical_service());
}

#[test]
fn a_bare_service_keeps_its_absent_fields_absent() {
    let projected = Service::from(canonical_service("only-a-name"));
    assert_eq!(projected.provider, None);
    assert_eq!(projected.endpoints, None);
    assert_eq!(projected.services, None);
    let back: models::Service = projected.into();
    assert_eq!(back, canonical_service("only-a-name"));
}

#[test]
fn an_unknown_flow_survives_the_projection() {
    let mut service = canonical_service("name");
    service.data = Some(vec![models::DataClassification {
        flow: models::DataFlowType::new_unchecked("sidewaysFlow"),
        classification: text("PII"),
    }]);
    let projected = Service::from(service);
    assert_eq!(projected.data.as_ref().expect("data")[0].flow, "sidewaysFlow");
    let back: models::Service = projected.into();
    assert_eq!(
        back.data.expect("data")[0].flow,
        models::DataFlowType::UnknownDataFlow("sidewaysFlow".to_string())
    );
}

#[test]
fn an_unknown_flow_with_a_known_name_comes_back_as_the_known_flow() {
    let mut service = canonical_service("name");
    service.data = Some(vec![models::DataClassification {
        flow: models::DataFlowType::UnknownDataFlow("inbound".to_string()),
        classification: text("PII"),
    }]);
    let back: models::Service = Service::from(service).into();
    assert_eq!(back.data.expect("data")[0].flow, models::DataFlowType::Inbound);
}

#[test]
fn three_services_keep_their_order_both_ways() {
    let list = models::Services(vec![
        canonical_service("A"),
        canonical_service("B"),
        canonical_service("C"),
    ]);
    let projected = Services::from(list);
    let names: Vec<&str> = projected.0.iter().map(|s| s.name.as_str()).collect();
    assert_eq!(names, vec!["A", "B", "C"]);
    let back: models::Services = projected.into();
    let names: Vec<&str> = back.0.iter().map(|s| s.name.as_str()).collect();
    assert_eq!(names, vec!["A", "B", "C"]);
}

#[test]
fn an_empty_list_of_services_stays_empty_both_ways() {
    let projected = Services::from(models::Services(vec![]));
    assert_eq!(projected, Services(vec![]));
    let back: models::Services = projected.into();
    assert_eq!(back, models::Services(vec![]));
}

#[test]
fn nested_services_are_projected_at_every_depth() {
    let mut inner = canonical_service("inner");
    inner.services = Some(models::Services(vec![canonical_service("innermost")]));
    let mut outer = canonical_service("outer");
    outer.services = Some(models::Services(vec![inner]));
    let projected = Service::from(outer);
    let nested = &projected.services.as_ref().expect("services").0[0];
    assert_eq!(nested.name, "inner");
    assert_eq!(nested.services.as_ref().expect("services").0[0].name, "innermost");
}
