use xsd_to_rs::element::Element;
use xsd_to_rs::error::XsdError;
use xsd_to_rs::restriction::RestrictionKind;
use xsd_to_rs::schema::Schema;
use xsd_to_rs::simple_type::SimpleType;
use xsd_to_rs::xml::{XmlAttribute, XmlNode};

fn node(tag: &str, attrs: &[(&str, &str)], children: Vec<XmlNode>) -> XmlNode {
    XmlNode {
        is_text: false,
        tag: tag.to_string(),
        attributes: attrs
            .iter()
            .map(|(n, v)| XmlAttribute { name: n.to_string(), value: v.to_string() })
            .collect(),
        children,
    }
}

fn text() -> XmlNode {
    XmlNode {
        is_text: true,
        tag: String::new(),
        attributes: Vec::new(),
        children: Vec::new(),
    }
}

/// The document root as the loader hands it in: an unnamed wrapper whose
/// children are the top-level constructs.
fn root(children: Vec<XmlNode>) -> XmlNode {
    node("", &[], children)
}

#[test]
fn schema_takes_first_element_in_pre_order() {
    let doc = root(vec![node(
        "schema",
        &[],
        vec![
            node("element", &[("name", "person"), ("type", "Person")], vec![]),
            node("element", &[("name", "other"), ("type", "Other")], vec![]),
        ],
    )]);
    let s = Schema::from_node(&doc).unwrap();
    assert_eq!(
        s.element,
        Element::Named { name: "person".to_string(), value: "Person".to_string() }
    );
}

#[test]
fn schema_root_element_may_be_nested() {
    // No top-level element: the first element in pre-order sits inside the
    // complex type's sequence, and root-element selection binds to it.
    let doc = root(vec![node(
        "schema",
        &[],
        vec![node(
            "complexType",
            &[("name", "Person")],
            vec![node(
                "sequence",
                &[],
                vec![node("element", &[("name", "first"), ("type", "xs:string")], vec![])],
            )],
        )],
    )]);
    let s = Schema::from_node(&doc).unwrap();
    assert_eq!(
        s.element,
        Element::Named { name: "first".to_string(), value: "xs:string".to_string() }
    );
}

#[test]
fn schema_without_element_fails() {
    let doc = root(vec![node(
        "schema",
        &[],
        vec![node(
            "simpleType",
            &[("name", "Age")],
            vec![node("restriction", &[("base", "xs:decimal")], vec![])],
        )],
    )]);
    assert_eq!(
        Schema::from_node(&doc),
        Err(XsdError::StructuralMismatch {
            construct: "schema".to_string(),
            expected: "element".to_string()
        })
    );
}

#[test]
fn schema_collects_types_in_document_order() {
    let doc = root(vec![node(
        "schema",
        &[],
        vec![
            text(),
            node("element", &[("name", "person"), ("type", "Person")], vec![]),
            node(
                "complexType",
                &[("name", "Person")],
                vec![node(
                    "sequence",
                    &[],
                    vec![
                        node("element", &[("name", "first"), ("type", "xs:string")], vec![]),
                        node("element", &[("name", "age"), ("type", "Age")], vec![]),
                    ],
                )],
            ),
            node(
                "complexType",
                &[("name", "Payment")],
                vec![node(
                    "choice",
                    &[],
                    vec![node("element", &[("name", "cash"), ("type", "xs:decimal")], vec![])],
                )],
            ),
            node(
                "simpleType",
                &[("name", "Age")],
                vec![node(
                    "restriction",
                    &[("base", "xs:decimal")],
                    vec![node("totalDigits", &[("value", "3")], vec![])],
                )],
            ),
            node(
                "simpleType",
                &[("name", "Name")],
                vec![node("restriction", &[("base", "xs:string")], vec![])],
            ),
        ],
    )]);
    let s = Schema::from_node(&doc).unwrap();
    assert_eq!(s.complex_types.len(), 2);
    assert_eq!(s.complex_types[0].name, "Person");
    assert_eq!(s.complex_types[1].name, "Payment");
    assert_eq!(s.simple_types.len(), 2);
    let SimpleType::Restriction { name, kind } = &s.simple_types[0];
    assert_eq!(name, "Age");
    assert_eq!(kind.base, "Decimal");
    assert_eq!(kind.restrictions, vec![RestrictionKind::TotalDigits(3)]);
    let SimpleType::Restriction { name, .. } = &s.simple_types[1];
    assert_eq!(name, "Name");
}

#[test]
fn schema_propagates_complex_type_failure() {
    let doc = root(vec![node(
        "schema",
        &[],
        vec![
            node("element", &[("name", "person"), ("type", "Person")], vec![]),
            node("complexType", &[], vec![node("sequence", &[], vec![])]),
        ],
    )]);
    assert_eq!(
        Schema::from_node(&doc),
        Err(XsdError::MissingAttribute {
            construct: "complexType".to_string(),
            attribute: "name".to_string()
        })
    );
}

#[test]
fn schema_propagates_simple_type_failure() {
    let doc = root(vec![node(
        "schema",
        &[],
        vec![
            node("element", &[("name", "person"), ("type", "Person")], vec![]),
            node(
                "simpleType",
                &[("name", "Bad")],
                vec![node(
                    "restriction",
                    &[("base", "xs:decimal")],
                    vec![node("totalDigits", &[("value", "many")], vec![])],
                )],
            ),
        ],
    )]);
    assert_eq!(
        Schema::from_node(&doc),
        Err(XsdError::InvalidNumericFacet {
            tag: "totalDigits".to_string(),
            value: "many".to_string()
        })
    );
}
