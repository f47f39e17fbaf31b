use vstd::prelude::*;
use crate::text::str_eq;

verus! {

/// The hint shown with an error code, for the codes that have one.
pub open spec fn help_text(code: Seq<char>) -> Option<Seq<char>> {
    if code == "L001"@ {
        Some("try choosing a unique name for this entity to resolve the naming conflict"@)
    } else if code == "L002"@ {
        Some("check spelling or ensure the entity is declared before it's used in this rule"@)
    } else if code == "L003"@ {
        Some("you can only manually 'update' stored fields, not derived ones (:=)"@)
    } else if code == "L004"@ {
        Some(
            "avoid circular dependencies by making one of the fields in the chain a stored field (field: Type)"@,
        )
    } else if code == "L005"@ {
        Some("ensure entity names are unique across your entire program"@)
    } else if code == "L006"@ {
        Some("ensure all field names within the same entity are unique"@)
    } else if code == "L010"@ {
        Some("double-check the field name spelling in your entity definition"@)
    } else if code == "L041"@ {
        Some("try shifting the time-dependent logic into a rule action instead of a := field"@)
    } else if code == "R004"@ {
        Some("verify your index value is within the bounds of the list"@)
    } else {
        None
    }
}

pub open spec fn opt_view(o: Option<String>) -> Option<Seq<char>> {
    match o {
        Some(s) => Some(s@),
        None => None,
    }
}

/// The hint for an error code, if it has one.
pub fn help_for_code(code: &str) -> (r: Option<String>)
    ensures
        opt_view(r) == help_text(code@),
{
    if str_eq(code, "L001") {
        Some(String::from_str("try choosing a unique name for this entity to resolve the naming conflict"))
    } else if str_eq(code, "L002") {
        Some(
            String::from_str(
                "check spelling or ensure the entity is declared before it's used in this rule",
            ),
        )
    } else if str_eq(code, "L003") {
        Some(String::from_str("you can only manually 'update' stored fields, not derived ones (:=)"))
    } else if str_eq(code, "L004") {
        Some(
            String::from_str(
                "avoid circular dependencies by making one of the fields in the chain a stored field (field: Type)",
            ),
        )
    } else if str_eq(code, "L005") {
        Some(String::from_str("ensure entity names are unique across your entire program"))
    } else if str_eq(code, "L006") {
        Some(String::from_str("ensure all field names within the same entity are unique"))
    } else if str_eq(code, "L010") {
        Some(String::from_str("double-check the field name spelling in your entity definition"))
    } else if str_eq(code, "L041") {
        Some(
            String::from_str(
                "try shifting the time-dependent logic into a rule action instead of a := field",
            ),
        )
    } else if str_eq(code, "R004") {
        Some(String::from_str("verify your index value is within the bounds of the list"))
    } else {
        None
    }
}

} // verus!
