use xsd_to_rs::attribute::Attribute;
use xsd_to_rs::choice::Choice;
use xsd_to_rs::complex_type::{ComplexType, ComplexTypeKind};
use xsd_to_rs::element::Element;
use xsd_to_rs::error::XsdError;
use xsd_to_rs::numeric::parse_i64;
use xsd_to_rs::resolve::resolve_base;
use xsd_to_rs::restriction::{Restriction, RestrictionKind};
use xsd_to_rs::sequence::Sequence;
use xsd_to_rs::simple_content::SimpleContent;
use xsd_to_rs::simple_type::SimpleType;
use xsd_to_rs::xml::{XmlAttribute, XmlNode};

fn node(tag: &str, attrs: &[(&str, &str)], children: Vec<XmlNode>) -> XmlNode {
    XmlNode {
        is_text: false,
        tag: tag.to_string(),
        attributes: attrs
            .iter()
            .map(|(n, v)| XmlAttribute { name: n.to_string(), value: v.to_string() })
            .collect(),
        children,
    }
}

fn text() -> XmlNode {
    XmlNode {
        is_text: true,
        tag: String::new(),
        attributes: Vec::new(),
        children: Vec::new(),
    }
}

#[test]
fn resolver_table_maps_every_entry() {
    assert_eq!(resolve_base("xs:decimal").unwrap(), "Decimal");
    assert_eq!(resolve_base("xs:string").unwrap(), "String");
    assert_eq!(resolve_base("xs:boolean").unwrap(), "bool");
    assert_eq!(resolve_base("xs:date").unwrap(), "String");
    assert_eq!(resolve_base("xs:dateTime").unwrap(), "String");
    assert_eq!(resolve_base("xs:gYear").unwrap(), "String");
    assert_eq!(resolve_base("xs:base64Binary").unwrap(), "String");
}

#[test]
fn resolver_rejects_unknown_names() {
    assert_eq!(
        resolve_base("xs:integer"),
        Err(XsdError::UnsupportedBaseType { name: "xs:integer".to_string() })
    );
    assert_eq!(
        resolve_base("decimal"),
        Err(XsdError::UnsupportedBaseType { name: "decimal".to_string() })
    );
}

#[test]
fn parse_i64_round_trips_extremes() {
    assert_eq!(parse_i64("9223372036854775807"), Some(i64::MAX));
    assert_eq!(parse_i64("-9223372036854775808"), Some(i64::MIN));
    assert_eq!(parse_i64("0"), Some(0));
    assert_eq!(parse_i64("+42"), Some(42));
    assert_eq!(parse_i64("-17"), Some(-17));
    assert_eq!(parse_i64("007"), Some(7));
}

#[test]
fn parse_i64_rejects_out_of_range() {
    assert_eq!(parse_i64("9223372036854775808"), None);
    assert_eq!(parse_i64("-9223372036854775809"), None);
    assert_eq!(parse_i64("99999999999999999999999"), None);
}

#[test]
fn parse_i64_rejects_non_literals() {
    assert_eq!(parse_i64(""), None);
    assert_eq!(parse_i64("-"), None);
    assert_eq!(parse_i64("+"), None);
    assert_eq!(parse_i64("12a"), None);
    assert_eq!(parse_i64(" 12"), None);
    assert_eq!(parse_i64("1.5"), None);
}

#[test]
fn element_with_name_and_type_is_named() {
    let n = node("element", &[("name", "first"), ("type", "xs:string")], vec![]);
    assert_eq!(
        Element::from_node(&n).unwrap(),
        Element::Named { name: "first".to_string(), value: "xs:string".to_string() }
    );
}

#[test]
fn any_construct_is_wildcard_irrespective_of_attributes() {
    let bare = node("any", &[], vec![]);
    assert_eq!(Element::from_node(&bare).unwrap(), Element::Wildcard);
    let decorated = node("any", &[("name", "x"), ("processContents", "lax")], vec![]);
    assert_eq!(Element::from_node(&decorated).unwrap(), Element::Wildcard);
}

#[test]
fn element_missing_name_fails() {
    let n = node("element", &[("type", "xs:string")], vec![]);
    assert_eq!(
        Element::from_node(&n),
        Err(XsdError::MissingAttribute {
            construct: "element".to_string(),
            attribute: "name".to_string()
        })
    );
}

#[test]
fn element_missing_type_fails() {
    let n = node("element", &[("name", "first")], vec![]);
    assert_eq!(
        Element::from_node(&n),
        Err(XsdError::MissingAttribute {
            construct: "element".to_string(),
            attribute: "type".to_string()
        })
    );
}

#[test]
fn sequence_preserves_document_order_and_skips_text() {
    let n = node(
        "sequence",
        &[],
        vec![
            text(),
            node("element", &[("name", "first"), ("type", "xs:string")], vec![]),
            text(),
            node("element", &[("name", "age"), ("type", "Age")], vec![]),
            text(),
        ],
    );
    let s = Sequence::from_node(&n).unwrap();
    assert_eq!(
        s.elements,
        vec![
            Element::Named { name: "first".to_string(), value: "xs:string".to_string() },
            Element::Named { name: "age".to_string(), value: "Age".to_string() },
        ]
    );
}

#[test]
fn sequence_propagates_first_element_failure() {
    let n = node(
        "sequence",
        &[],
        vec![
            node("element", &[("name", "ok"), ("type", "xs:string")], vec![]),
            node("element", &[("name", "bad")], vec![]),
        ],
    );
    assert_eq!(
        Sequence::from_node(&n),
        Err(XsdError::MissingAttribute {
            construct: "element".to_string(),
            attribute: "type".to_string()
        })
    );
}

#[test]
fn choice_holds_every_alternative() {
    let n = node(
        "choice",
        &[],
        vec![
            node("element", &[("name", "cash"), ("type", "Cash")], vec![]),
            node("any", &[], vec![]),
            node("element", &[("name", "card"), ("type", "Card")], vec![]),
        ],
    );
    let c = Choice::from_node(&n).unwrap();
    assert_eq!(c.choices.len(), 3);
    assert!(c.choices.contains(&Element::Named {
        name: "cash".to_string(),
        value: "Cash".to_string()
    }));
    assert!(c.choices.contains(&Element::Wildcard));
    assert!(c.choices.contains(&Element::Named {
        name: "card".to_string(),
        value: "Card".to_string()
    }));
}

#[test]
fn numeric_facets_parse_their_values() {
    let cases: [(&str, fn(i64) -> RestrictionKind); 5] = [
        ("fractionDigits", RestrictionKind::FractionDigits),
        ("totalDigits", RestrictionKind::TotalDigits),
        ("minInclusive", RestrictionKind::MinInclusive),
        ("minLength", RestrictionKind::MinLength),
        ("maxLength", RestrictionKind::MaxLength),
    ];
    for (tag, make) in cases {
        let n = node(tag, &[("value", "-12")], vec![]);
        assert_eq!(RestrictionKind::from_node(&n).unwrap(), make(-12));
    }
}

#[test]
fn numeric_facet_rejects_non_integer_value() {
    for tag in ["fractionDigits", "totalDigits", "minInclusive", "minLength", "maxLength"] {
        let n = node(tag, &[("value", "3.5")], vec![]);
        assert_eq!(
            RestrictionKind::from_node(&n),
            Err(XsdError::InvalidNumericFacet {
                tag: tag.to_string(),
                value: "3.5".to_string()
            })
        );
    }
}

#[test]
fn numeric_facet_missing_value_fails() {
    let n = node("totalDigits", &[], vec![]);
    assert_eq!(
        RestrictionKind::from_node(&n),
        Err(XsdError::MissingAttribute {
            construct: "totalDigits".to_string(),
            attribute: "value".to_string()
        })
    );
}

#[test]
fn string_facets_take_values_verbatim() {
    let p = node("pattern", &[("value", "[A-Z]{2}[0-9]+")], vec![]);
    assert_eq!(
        RestrictionKind::from_node(&p).unwrap(),
        RestrictionKind::Pattern("[A-Z]{2}[0-9]+".to_string())
    );
    let e = node("enumeration", &[("value", "red")], vec![]);
    assert_eq!(
        RestrictionKind::from_node(&e).unwrap(),
        RestrictionKind::Enumeration("red".to_string())
    );
}

#[test]
fn unknown_facet_is_a_hard_failure() {
    let n = node("whiteSpace", &[("value", "collapse")], vec![]);
    assert_eq!(
        RestrictionKind::from_node(&n),
        Err(XsdError::UnsupportedFacet { tag: "whiteSpace".to_string() })
    );
}

#[test]
fn restriction_keeps_facets_in_document_order() {
    let n = node(
        "simpleType",
        &[("name", "Code")],
        vec![node(
            "restriction",
            &[("base", "xs:string")],
            vec![
                text(),
                node("minLength", &[("value", "2")], vec![]),
                node("pattern", &[("value", "[a-z]+")], vec![]),
                text(),
                node("maxLength", &[("value", "8")], vec![]),
            ],
        )],
    );
    let r = Restriction::from_node(&n).unwrap();
    assert_eq!(r.base, "String");
    assert_eq!(
        r.restrictions,
        vec![
            RestrictionKind::MinLength(2),
            RestrictionKind::Pattern("[a-z]+".to_string()),
            RestrictionKind::MaxLength(8),
        ]
    );
}

#[test]
fn restriction_with_no_facets_is_empty() {
    let n = node("simpleType", &[], vec![node("restriction", &[("base", "xs:boolean")], vec![])]);
    let r = Restriction::from_node(&n).unwrap();
    assert_eq!(r.base, "bool");
    assert_eq!(r.restrictions, vec![]);
}

#[test]
fn restriction_found_at_any_depth() {
    let n = node(
        "simpleType",
        &[],
        vec![node(
            "annotation",
            &[],
            vec![node("restriction", &[("base", "xs:decimal")], vec![])],
        )],
    );
    assert_eq!(Restriction::from_node(&n).unwrap().base, "Decimal");
}

#[test]
fn missing_restriction_is_structural_mismatch() {
    let n = node("simpleType", &[("name", "Code")], vec![]);
    assert_eq!(
        Restriction::from_node(&n),
        Err(XsdError::StructuralMismatch {
            construct: "simpleType".to_string(),
            expected: "restriction".to_string()
        })
    );
}

#[test]
fn unsupported_base_leaves_no_partial_restriction() {
    let n = node(
        "simpleType",
        &[("name", "Code")],
        vec![node(
            "restriction",
            &[("base", "xs:token")],
            vec![node("minLength", &[("value", "1")], vec![])],
        )],
    );
    assert_eq!(
        Restriction::from_node(&n),
        Err(XsdError::UnsupportedBaseType { name: "xs:token".to_string() })
    );
}

#[test]
fn simple_type_age_example() {
    let n = node(
        "simpleType",
        &[("name", "Age")],
        vec![node(
            "restriction",
            &[("base", "xs:decimal")],
            vec![node("totalDigits", &[("value", "3")], vec![])],
        )],
    );
    assert_eq!(
        SimpleType::from_node(&n).unwrap(),
        SimpleType::Restriction {
            name: "Age".to_string(),
            kind: Restriction {
                base: "Decimal".to_string(),
                restrictions: vec![RestrictionKind::TotalDigits(3)],
            },
        }
    );
}

#[test]
fn simple_type_missing_name_fails() {
    let n = node("simpleType", &[], vec![node("restriction", &[("base", "xs:string")], vec![])]);
    assert_eq!(
        SimpleType::from_node(&n),
        Err(XsdError::MissingAttribute {
            construct: "simpleType".to_string(),
            attribute: "name".to_string()
        })
    );
}

#[test]
fn simple_content_extension_with_attribute() {
    let n = node(
        "simpleContent",
        &[],
        vec![node(
            "extension",
            &[("base", "xs:decimal")],
            vec![node(
                "attribute",
                &[("name", "currency"), ("type", "xs:string"), ("use", "required")],
                vec![],
            )],
        )],
    );
    assert_eq!(
        SimpleContent::from_node(&n).unwrap(),
        SimpleContent::Extension {
            base: "xs:decimal".to_string(),
            attribute: Attribute {
                name: "currency".to_string(),
                ty: "xs:string".to_string(),
                usage: "required".to_string(),
            },
        }
    );
}

#[test]
fn simple_content_missing_extension_fails() {
    let n = node("simpleContent", &[], vec![text()]);
    assert_eq!(
        SimpleContent::from_node(&n),
        Err(XsdError::StructuralMismatch {
            construct: "simpleContent".to_string(),
            expected: "extension".to_string()
        })
    );
}

#[test]
fn simple_content_missing_attribute_node_fails() {
    let n = node("simpleContent", &[], vec![node("extension", &[("base", "xs:decimal")], vec![])]);
    assert_eq!(
        SimpleContent::from_node(&n),
        Err(XsdError::StructuralMismatch {
            construct: "extension".to_string(),
            expected: "attribute".to_string()
        })
    );
}

#[test]
fn simple_content_missing_use_fails() {
    let n = node(
        "simpleContent",
        &[],
        vec![node(
            "extension",
            &[("base", "xs:decimal")],
            vec![node("attribute", &[("name", "currency"), ("type", "xs:string")], vec![])],
        )],
    );
    assert_eq!(
        SimpleContent::from_node(&n),
        Err(XsdError::MissingAttribute {
            construct: "attribute".to_string(),
            attribute: "use".to_string()
        })
    );
}

#[test]
fn complex_type_person_sequence_example() {
    let n = node(
        "complexType",
        &[("name", "Person")],
        vec![node(
            "sequence",
            &[],
            vec![
                node("element", &[("name", "first"), ("type", "xs:string")], vec![]),
                node("element", &[("name", "age"), ("type", "Age")], vec![]),
            ],
        )],
    );
    let ct = ComplexType::from_node(&n).unwrap();
    assert_eq!(ct.name, "Person");
    assert_eq!(
        ct.kind,
        ComplexTypeKind::Sequence(Sequence {
            elements: vec![
                Element::Named { name: "first".to_string(), value: "xs:string".to_string() },
                Element::Named { name: "age".to_string(), value: "Age".to_string() },
            ],
        })
    );
}

#[test]
fn complex_type_first_body_wins_sequence_before_simple_content() {
    let n = node(
        "complexType",
        &[("name", "Mixed")],
        vec![
            node("sequence", &[], vec![]),
            node(
                "simpleContent",
                &[],
                vec![node(
                    "extension",
                    &[("base", "xs:decimal")],
                    vec![node(
                        "attribute",
                        &[("name", "c"), ("type", "xs:string"), ("use", "optional")],
                        vec![],
                    )],
                )],
            ),
        ],
    );
    let ct = ComplexType::from_node(&n).unwrap();
    assert!(matches!(ct.kind, ComplexTypeKind::Sequence(_)));
}

#[test]
fn complex_type_first_body_wins_simple_content_before_sequence() {
    let n = node(
        "complexType",
        &[("name", "Mixed")],
        vec![
            node(
                "simpleContent",
                &[],
                vec![node(
                    "extension",
                    &[("base", "xs:decimal")],
                    vec![node(
                        "attribute",
                        &[("name", "c"), ("type", "xs:string"), ("use", "optional")],
                        vec![],
                    )],
                )],
            ),
            node("sequence", &[], vec![]),
        ],
    );
    let ct = ComplexType::from_node(&n).unwrap();
    assert!(matches!(ct.kind, ComplexTypeKind::SimpleContent(_)));
}

#[test]
fn complex_type_finds_body_at_depth() {
    let n = node(
        "complexType",
        &[("name", "Wrapped")],
        vec![node(
            "annotation",
            &[],
            vec![node(
                "choice",
                &[],
                vec![node("element", &[("name", "a"), ("type", "A")], vec![])],
            )],
        )],
    );
    let ct = ComplexType::from_node(&n).unwrap();
    assert!(matches!(ct.kind, ComplexTypeKind::Choice(_)));
}

#[test]
fn complex_type_missing_name_fails() {
    let n = node("complexType", &[], vec![node("sequence", &[], vec![])]);
    assert_eq!(
        ComplexType::from_node(&n),
        Err(XsdError::MissingAttribute {
            construct: "complexType".to_string(),
            attribute: "name".to_string()
        })
    );
}

#[test]
fn complex_type_without_body_fails() {
    let n = node("complexType", &[("name", "Empty")], vec![text()]);
    assert_eq!(
        ComplexType::from_node(&n),
        Err(XsdError::StructuralMismatch {
            construct: "complexType".to_string(),
            expected: "choice, simpleContent or sequence".to_string()
        })
    );
}
