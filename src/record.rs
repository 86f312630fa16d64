//! The flat license record that both formats are normalized into.
use vstd::prelude::*;

verus! {

/// One output row: fixed columns, with an absent value as the empty text.
pub ghost struct FlatRecord {
    pub name: Seq<char>,
    pub namespace: Seq<char>,
    pub group: Seq<char>,
    pub version: Seq<char>,
    pub package_reference: Seq<char>,
    pub license_id: Seq<char>,
    pub license_name: Seq<char>,
    pub license_expression: Seq<char>,
    pub alternate_reference: Seq<char>,
}

/// The text of an optional value, empty where it is absent.
pub open spec fn opt_text(o: Option<String>) -> Seq<char> {
    match o {
        Some(s) => s@,
        None => seq![],
    }
}

/// The items of an optional list, none where it is absent.
pub open spec fn opt_items<T>(o: Option<Vec<T>>) -> Seq<T> {
    match o {
        Some(v) => v@,
        None => seq![],
    }
}

/// The text of an optional value, empty where it is absent.
pub fn text_or_empty(o: &Option<String>) -> (r: String)
    ensures
        r@ == opt_text(*o),
{
    match o {
        Some(s) => s.clone(),
        None => String::new(),
    }
}

} // verus!
