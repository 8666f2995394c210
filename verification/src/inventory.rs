//! The data shapes of the declarative inventory documents (an offline
//! loading facility, separate from the live cache) and the string helper
//! their field names go through. Reading the documents themselves is
//! outside work; the shapes and the helper live here.

use vstd::prelude::*;
use vstd::string::StrSliceExecFns;
use vstd::string::StringExecFns;

verus! {

/// What uppercasing one character yields; Unicode case mapping may expand
/// one character to several.
pub uninterp spec fn upper_of(c: char) -> Seq<char>;

/// Relies on `char::to_uppercase`: the result depends on the character
/// alone.
#[verifier::external_body]
fn char_to_uppercase(c: char) -> (r: String)
    ensures
        r@ == upper_of(c),
{
    c.to_uppercase().collect::<String>()
}

/// The string with its first character uppercased; empty stays empty.
pub fn capitalise(string: &str) -> (r: String)
    ensures
        string@.len() == 0 ==> r@ == Seq::<char>::empty(),
        string@.len() > 0 ==> r@ == upper_of(string@[0]) + string@.skip(1),
{
    let len = string.unicode_len();
    if len == 0 {
        String::new()
    } else {
        let mut out = char_to_uppercase(string.get_char(0));
        out.append(string.substring_char(1, len));
        out
    }
}

/// One developer listed in the project document.
#[derive(Debug)]
pub struct InventoryDeveloper {
    pub name: String,
    pub email: String,
}

impl InventoryDeveloper {
    pub fn new(name: String, email: String) -> (r: InventoryDeveloper)
        ensures
            r.name == name,
            r.email == email,
    {
        InventoryDeveloper { name, email }
    }

    pub fn name(&self) -> (r: &str)
        ensures
            r@ == self.name@,
    {
        self.name.as_str()
    }

    pub fn email(&self) -> (r: &str)
        ensures
            r@ == self.email@,
    {
        self.email.as_str()
    }
}

/// The certificate defaults a project document may carry.
#[derive(Debug)]
pub struct InventoryCertificateDefaults {
    country_code: String,
    locality: String,
    organization: String,
}

impl InventoryCertificateDefaults {
    pub fn new(country_code: String, locality: String, organization: String) -> (r:
        InventoryCertificateDefaults)
        ensures
            r.spec_country_code() == country_code@,
            r.spec_locality() == locality@,
            r.spec_organization() == organization@,
    {
        InventoryCertificateDefaults { country_code, locality, organization }
    }

    pub closed spec fn spec_country_code(&self) -> Seq<char> {
        self.country_code@
    }

    pub closed spec fn spec_locality(&self) -> Seq<char> {
        self.locality@
    }

    pub closed spec fn spec_organization(&self) -> Seq<char> {
        self.organization@
    }
}

/// One resource-data binding of a project document.
#[derive(Debug)]
pub struct InventoryResourceData {
    group_name: String,
    key_expression: String,
    section_name: Option<String>,
}

impl InventoryResourceData {
    pub fn new(group_name: String, key_expression: String, section_name: Option<String>) -> (r:
        InventoryResourceData)
        ensures
            r.spec_group_name() == group_name@,
            r.spec_key_expression() == key_expression@,
            r.spec_section_name() == section_name.deep_view(),
    {
        InventoryResourceData { group_name, key_expression, section_name }
    }

    pub closed spec fn spec_group_name(&self) -> Seq<char> {
        self.group_name@
    }

    pub closed spec fn spec_key_expression(&self) -> Seq<char> {
        self.key_expression@
    }

    pub closed spec fn spec_section_name(&self) -> Option<Seq<char>> {
        self.section_name.deep_view()
    }
}

} // verus!
