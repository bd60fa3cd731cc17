//! The type resolver: a fixed mapping from the schema's built-in primitive
//! names to host primitive names.
//!
//! Date-like kinds and binary data map to plain text on purpose: they are
//! carried as opaque strings rather than modelled. Any name outside the
//! table is a fatal failure; there is no fallback.

use vstd::prelude::*;

use crate::error::ErrorView;
use crate::error::XsdError;
use crate::xml::str_eq;

verus! {

/// The fixed resolver table: the host primitive for a schema built-in
/// primitive name, or `None` for a name outside the table.
pub open spec fn spec_resolve(name: Seq<char>) -> Option<Seq<char>> {
    if name == "xs:decimal"@ {
        Some("Decimal"@)
    } else if name == "xs:string"@ {
        Some("String"@)
    } else if name == "xs:boolean"@ {
        Some("bool"@)
    } else if name == "xs:date"@ {
        Some("String"@)
    } else if name == "xs:dateTime"@ {
        Some("String"@)
    } else if name == "xs:gYear"@ {
        Some("String"@)
    } else if name == "xs:base64Binary"@ {
        Some("String"@)
    } else {
        None
    }
}

/// Resolves a base type name through the fixed table.
///
/// Succeeds exactly on the seven names of the table, returning the
/// documented host primitive; every other name fails with
/// `UnsupportedBaseType` carrying the offending name.
pub fn resolve_base(name: &str) -> (r: Result<String, XsdError>)
    ensures
        match r {
            Ok(p) => spec_resolve(name@) == Some(p@),
            Err(e) => spec_resolve(name@) is None && e@ == (ErrorView::UnsupportedBaseType {
                name: name@,
            }),
        },
{
    if str_eq(name, "xs:decimal") {
        Ok("Decimal".to_owned())
    } else if str_eq(name, "xs:string") {
        Ok("String".to_owned())
    } else if str_eq(name, "xs:boolean") {
        Ok("bool".to_owned())
    } else if str_eq(name, "xs:date") {
        Ok("String".to_owned())
    } else if str_eq(name, "xs:dateTime") {
        Ok("String".to_owned())
    } else if str_eq(name, "xs:gYear") {
        Ok("String".to_owned())
    } else if str_eq(name, "xs:base64Binary") {
        Ok("String".to_owned())
    } else {
        Err(XsdError::UnsupportedBaseType { name: name.to_owned() })
    }
}

/// Law: every name of the fixed table resolves to its documented host
/// primitive.
pub proof fn lemma_resolver_table()
    ensures
        spec_resolve("xs:decimal"@) == Some("Decimal"@),
        spec_resolve("xs:string"@) == Some("String"@),
        spec_resolve("xs:boolean"@) == Some("bool"@),
        spec_resolve("xs:date"@) == Some("String"@),
        spec_resolve("xs:dateTime"@) == Some("String"@),
        spec_resolve("xs:gYear"@) == Some("String"@),
        spec_resolve("xs:base64Binary"@) == Some("String"@),
{
    reveal_strlit("xs:decimal");
    reveal_strlit("xs:string");
    reveal_strlit("xs:boolean");
    reveal_strlit("xs:date");
    reveal_strlit("xs:dateTime");
    reveal_strlit("xs:gYear");
    reveal_strlit("xs:base64Binary");
    assert("xs:decimal"@.len() == 10);
    assert("xs:string"@.len() == 9);
    assert("xs:boolean"@.len() == 10);
    assert("xs:date"@.len() == 7);
    assert("xs:dateTime"@.len() == 11);
    assert("xs:gYear"@.len() == 8);
    assert("xs:base64Binary"@.len() == 15);
    assert("xs:boolean"@ != "xs:decimal"@) by {
        assert("xs:boolean"@[3] != "xs:decimal"@[3]);
    }
}

} // verus!
