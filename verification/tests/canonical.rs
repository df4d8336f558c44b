use cyclonedx_bom::external_models::{
    check_normalized, check_uri, NormalizedString, Uri, ValidationError,
};
use cyclonedx_bom::models::{DataFlowType, ExternalReferenceType};

#[test]
fn a_normalized_string_is_taken_as_it_is() {
    let text = NormalizedString::new("plain text").expect("normalized");
    assert_eq!(text.as_str(), "plain text");
    assert_eq!(NormalizedString::new("").expect("empty is normalized").as_str(), "");
}

#[test]
fn a_control_character_is_refused() {
    assert_eq!(NormalizedString::new("a\tb"), Err(ValidationError::InvalidCharacter));
    assert_eq!(NormalizedString::new("a\nb"), Err(ValidationError::InvalidCharacter));
    assert_eq!(NormalizedString::new("a\u{7f}b"), Err(ValidationError::InvalidCharacter));
    assert_eq!(NormalizedString::new("a\u{9f}b"), Err(ValidationError::InvalidCharacter));
    assert!(NormalizedString::new("a\u{a0}b").is_ok());
}

#[test]
fn a_space_at_either_end_is_refused() {
    assert_eq!(NormalizedString::new(" a"), Err(ValidationError::InvalidCharacter));
    assert_eq!(NormalizedString::new("a "), Err(ValidationError::InvalidCharacter));
    assert_eq!(NormalizedString::new(" "), Err(ValidationError::InvalidCharacter));
    assert!(NormalizedString::new("a b").is_ok());
}

#[test]
fn a_required_field_must_not_be_empty() {
    assert_eq!(NormalizedString::new_required(""), Err(ValidationError::EmptyRequiredField));
    assert_eq!(NormalizedString::new_required("a\rb"), Err(ValidationError::InvalidCharacter));
    assert_eq!(NormalizedString::new_required("name").expect("valid").as_str(), "name");
}

#[test]
fn unchecked_text_is_kept_whatever_it_holds() {
    assert_eq!(NormalizedString::new_unchecked(" a\tb ".to_string()).as_str(), " a\tb ");
}

#[test]
fn a_uri_has_no_space_and_is_not_empty() {
    assert_eq!(Uri::new("https://svc/auth").expect("a URI").as_str(), "https://svc/auth");
    assert_eq!(Uri::new(""), Err(ValidationError::InvalidUri));
    assert_eq!(Uri::new("https://svc/a b"), Err(ValidationError::InvalidUri));
    assert_eq!(Uri::new("https://svc/\n"), Err(ValidationError::InvalidUri));
}

#[test]
fn the_checks_agree_with_the_constructors() {
    assert!(check_normalized("abc"));
    assert!(!check_normalized("abc "));
    assert!(check_normalized("\u{e9}t\u{e9}"));
    assert!(check_uri("urn:x"));
    assert!(!check_uri(" "));
}

#[test]
fn known_flows_are_named_as_the_schema_names_them() {
    assert_eq!(DataFlowType::new_unchecked("inbound"), DataFlowType::Inbound);
    assert_eq!(DataFlowType::new_unchecked("outbound"), DataFlowType::Outbound);
    assert_eq!(DataFlowType::new_unchecked("bi-directional"), DataFlowType::BiDirectional);
    assert_eq!(DataFlowType::new_unchecked("unknown"), DataFlowType::Unknown);
    assert_eq!(DataFlowType::Inbound.to_text(), "inbound");
    assert_eq!(DataFlowType::Outbound.to_text(), "outbound");
    assert_eq!(DataFlowType::BiDirectional.to_text(), "bi-directional");
    assert_eq!(DataFlowType::Unknown.to_text(), "unknown");
}

#[test]
fn an_unknown_flow_keeps_its_text() {
    let flow = DataFlowType::new_unchecked("sidewaysFlow");
    assert_eq!(flow, DataFlowType::UnknownDataFlow("sidewaysFlow".to_string()));
    assert_eq!(flow.to_text(), "sidewaysFlow");
    assert_eq!(
        DataFlowType::new_unchecked("Inbound"),
        DataFlowType::UnknownDataFlow("Inbound".to_string())
    );
    assert_eq!(
        DataFlowType::new_unchecked(" inbound"),
        DataFlowType::UnknownDataFlow(" inbound".to_string())
    );
}

#[test]
fn an_unknown_flow_differs_from_the_known_flow_of_the_same_text() {
    assert_ne!(DataFlowType::UnknownDataFlow("inbound".to_string()), DataFlowType::Inbound);
    assert_eq!(DataFlowType::UnknownDataFlow("inbound".to_string()).to_text(), "inbound");
}

#[test]
fn reference_kinds_are_named_as_the_schema_names_them() {
    let names = [
        ("vcs", ExternalReferenceType::Vcs),
        ("issue-tracker", ExternalReferenceType::IssueTracker),
        ("website", ExternalReferenceType::Website),
        ("advisories", ExternalReferenceType::Advisories),
        ("bom", ExternalReferenceType::Bom),
        ("mailing-list", ExternalReferenceType::MailingList),
        ("social", ExternalReferenceType::Social),
        ("chat", ExternalReferenceType::Chat),
        ("documentation", ExternalReferenceType::Documentation),
        ("support", ExternalReferenceType::Support),
        ("distribution", ExternalReferenceType::Distribution),
        ("license", ExternalReferenceType::License),
        ("build-meta", ExternalReferenceType::BuildMeta),
        ("build-system", ExternalReferenceType::BuildSystem),
        ("other", ExternalReferenceType::Other),
    ];
    for (text, kind) in names {
        assert_eq!(ExternalReferenceType::new_unchecked(text), kind);
        assert_eq!(kind.to_text(), text);
    }
    assert_eq!(
        ExternalReferenceType::new_unchecked("external reference type"),
        ExternalReferenceType::UnknownExternalReferenceType("external reference type".to_string())
    );
}
