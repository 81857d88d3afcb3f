//! Options as attribute text.

use vstd::prelude::*;
use vstd::string::{to_string_from_display_ensures, StringExecFns};

verus! {

/// The text that stands for an option that holds nothing.
pub open spec fn spec_none_text() -> Seq<char> {
    "none"@
}

/// Chooses the text of an option whose content has been rendered already:
/// the rendering itself, or `"none"` where there is no content.
pub fn rendered_or_none(rendered: Option<String>) -> (r: String)
    ensures
        match rendered {
            Some(text) => r == text,
            None => r@ == spec_none_text(),
        },
{
    match rendered {
        Some(text) => text,
        None => String::from_str("none"),
    }
}

/// Serializes an option into a string: the display text of its content, or
/// `"none"` where it holds nothing.
pub fn serde_option<T>(option: Option<T>) -> (r: String) where T: core::fmt::Display
    ensures
        match option {
            Some(v) => to_string_from_display_ensures::<T>(&v, r),
            None => r@ == spec_none_text(),
        },
{
    match option {
        Some(v) => rendered_or_none(Some(v.to_string())),
        None => rendered_or_none(None),
    }
}

} // verus!
