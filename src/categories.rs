//! Descriptive groupings of rules by the kind of unsoundness they detect.
use vstd::prelude::*;

verus! {

/// Metadata for an unsoundness category.
#[derive(Debug, Clone)]
pub struct CategoryMetadata {
    /// The unique identifier for the category (kebab-case).
    pub name: String,
    /// An in-depth explanation of the category in markdown.
    pub documentation: String,
}

/// The known categories of unsoundness.
#[derive(Debug, Clone, Copy, PartialEq, Eq, Structural)]
pub enum Category {
    /// Runtime code modifications that escape static type checker analysis.
    RuntimeModification,
    /// Mechanisms that suppress or bypass type checker warnings.
    TypeCheckingSuppression,
}

impl Category {
    pub open spec fn spec_name(self) -> Seq<char> {
        match self {
            Category::RuntimeModification => "runtime-modification"@,
            Category::TypeCheckingSuppression => "type-checking-suppression"@,
        }
    }

    /// The category's kebab-case identifier.
    pub fn name(self) -> (r: &'static str)
        ensures
            r@ == self.spec_name(),
    {
        match self {
            Category::RuntimeModification => "runtime-modification",
            Category::TypeCheckingSuppression => "type-checking-suppression",
        }
    }

    pub open spec fn spec_documentation(self) -> Seq<char> {
        match self {
            Category::RuntimeModification => "Runtime code modifications that escape static type checker analysis.\n\nExamples: modifying `__code__`, `__defaults__`, or other runtime attributes\nthat change behavior in ways type checkers cannot detect.\n"@,
            Category::TypeCheckingSuppression => "Mechanisms that suppress or bypass type checker warnings.\n\nExamples: `typing.Any`, `# type: ignore` directives, or other escape hatches\nthat silence type checking without fixing underlying type issues.\n"@,
        }
    }

    /// The category's documentation in markdown.
    pub fn documentation(self) -> (r: &'static str)
        ensures
            r@ == self.spec_documentation(),
    {
        match self {
            Category::RuntimeModification => "Runtime code modifications that escape static type checker analysis.\n\nExamples: modifying `__code__`, `__defaults__`, or other runtime attributes\nthat change behavior in ways type checkers cannot detect.\n",
            Category::TypeCheckingSuppression => "Mechanisms that suppress or bypass type checker warnings.\n\nExamples: `typing.Any`, `# type: ignore` directives, or other escape hatches\nthat silence type checking without fixing underlying type issues.\n",
        }
    }

    /// The category's name together with its documentation.
    pub fn metadata(self) -> (r: CategoryMetadata)
        ensures
            r.name@ == self.spec_name(),
            r.documentation@ == self.spec_documentation(),
    {
        CategoryMetadata { name: String::from_str(self.name()), documentation: String::from_str(self.documentation()) }
    }
}

/// All categories, in documentation order.
pub fn all_categories() -> (r: Vec<Category>)
    ensures
        r@ == seq![Category::RuntimeModification, Category::TypeCheckingSuppression],
{
    vec![Category::RuntimeModification, Category::TypeCheckingSuppression]
}

} // verus!
