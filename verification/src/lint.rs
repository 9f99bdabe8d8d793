//! The lint directive's configuration: which text case each kind of
//! schema name is held to. Serialization of this configuration is the
//! configuration layer's concern; here live the bare types and what each
//! case is called.

use vstd::prelude::*;

verus! {

/// A text case convention for schema names.
#[derive(Clone, Copy, Debug, PartialEq, Eq, Structural)]
pub enum TextCase {
    Camel,
    Pascal,
    Snake,
    ScreamingSnake,
}

impl TextCase {
    /// The conventional name of the case.
    pub open spec fn spec_text(&self) -> Seq<char> {
        match self {
            TextCase::Camel => "camelCase"@,
            TextCase::Pascal => "PascalCase"@,
            TextCase::Snake => "snake_case"@,
            TextCase::ScreamingSnake => "SCREAMING_SNAKE_CASE"@,
        }
    }

    /// The conventional name of the case, as displayed.
    pub fn text(&self) -> (r: &'static str)
        ensures
            r@ == self.spec_text(),
    {
        match self {
            TextCase::Camel => "camelCase",
            TextCase::Pascal => "PascalCase",
            TextCase::Snake => "snake_case",
            TextCase::ScreamingSnake => "SCREAMING_SNAKE_CASE",
        }
    }
}

/// The lint configuration: each field is an optional setting, absent by
/// default.
#[derive(Clone, Copy, Debug, PartialEq, Eq)]
pub struct Lint {
    /// Whether lint findings are fixed automatically.
    pub auto_fix: Option<bool>,
    /// The text case for enum names.
    pub enum_lint: Option<TextCase>,
    /// The text case for the values in enums.
    pub enum_value_lint: Option<TextCase>,
    /// The text case for field names.
    pub field_lint: Option<TextCase>,
    /// The text case for type names.
    pub type_lint: Option<TextCase>,
}

impl Default for Lint {
    /// A lint configuration with every setting absent.
    fn default() -> (r: Lint)
        ensures
            r.auto_fix is None,
            r.enum_lint is None,
            r.enum_value_lint is None,
            r.field_lint is None,
            r.type_lint is None,
    {
        Lint {
            auto_fix: None,
            enum_lint: None,
            enum_value_lint: None,
            field_lint: None,
            type_lint: None,
        }
    }
}

} // verus!
