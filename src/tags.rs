//! Which tag names are native: the HTML and SVG vocabularies, and configured patterns.
use vstd::prelude::*;
use crate::text::is_ascii_lower;

verus! {

pub uninterp spec fn standard_html_tag(name: Seq<char>) -> bool;

pub uninterp spec fn svg_tag(name: Seq<char>) -> bool;

pub uninterp spec fn pattern_matches(pattern: Seq<char>, name: Seq<char>) -> bool;

/// Relies on `css_dataset::tags::STANDARD_HTML_TAGS`: whether the name is listed there.
#[verifier::external_body]
fn is_standard_html_tag(name: &str) -> (r: bool)
    ensures
        r == standard_html_tag(name@),
{
    css_dataset::tags::STANDARD_HTML_TAGS.contains(&name)
}

/// Relies on `css_dataset::tags::SVG_TAGS`: whether the name is listed there.
#[verifier::external_body]
fn is_svg_tag(name: &str) -> (r: bool)
    ensures
        r == svg_tag(name@),
{
    css_dataset::tags::SVG_TAGS.contains(&name)
}

/// Relies on `regex::Regex::new` and `regex::Regex::is_match`: whether the pattern, read as
/// a regular expression, matches somewhere in the name (a pattern that does not compile
/// matches nothing).
#[verifier::external_body]
fn custom_pattern_matches(pattern: &str, name: &str) -> (r: bool)
    ensures
        r == pattern_matches(pattern@, name@),
{
    match regex::Regex::new(pattern) {
        Ok(re) => re.is_match(name),
        Err(_) => false,
    }
}

/// A lower-case name of the HTML or SVG vocabulary.
pub open spec fn native_tag(name: Seq<char>) -> bool {
    name.len() > 0 && is_ascii_lower(name[0]) && (standard_html_tag(name) || svg_tag(name))
}

pub fn is_native_tag(name: &str) -> (r: bool)
    ensures
        r == native_tag(name@),
{
    if name.unicode_len() == 0 {
        return false;
    }
    let c = name.get_char(0);
    'a' <= c && c <= 'z' && (is_standard_html_tag(name) || is_svg_tag(name))
}

/// Some configured pattern matches the name.
pub open spec fn custom_element(patterns: Seq<String>, name: Seq<char>) -> bool {
    exists|i: int| 0 <= i < patterns.len() && pattern_matches(#[trigger] patterns[i]@, name)
}

pub fn is_custom_element(patterns: &Vec<String>, name: &str) -> (r: bool)
    ensures
        r == custom_element(patterns@, name@),
{
    let mut i: usize = 0;
    while i < patterns.len()
        invariant
            i <= patterns.len(),
            forall|j: int| 0 <= j < i ==> !pattern_matches(#[trigger] patterns@[j]@, name@),
        decreases patterns.len() - i,
    {
        if custom_pattern_matches(patterns[i].as_str(), name) {
            return true;
        }
        i = i + 1;
    }
    false
}

} // verus!
