//! syntect, as the room page uses it: the bundled syntax definitions and themes,
//! looked up by name, and the highlighted HTML of a code text.
use vstd::prelude::*;

verus! {

#[verifier::external_type_specification]
#[verifier::external_body]
pub struct ExSyntaxSet(syntect::parsing::SyntaxSet);

#[verifier::external_type_specification]
#[verifier::external_body]
pub struct ExSyntaxReference(syntect::parsing::SyntaxReference);

#[verifier::external_type_specification]
#[verifier::external_body]
pub struct ExTheme(syntect::highlighting::Theme);

#[verifier::external_type_specification]
#[verifier::external_body]
pub struct ExThemeSet(syntect::highlighting::ThemeSet);

#[verifier::external_type_specification]
#[verifier::external_body]
pub struct ExSyntectError(syntect::Error);

/// The HTML that syntect's `highlighted_html_for_string` makes of `code`, with
/// syntect's bundled syntax definitions (the newline variant) and themes, the syntax
/// chosen by the file extension `extension` and the theme named `theme`; `None` where
/// it fails.
pub uninterp spec fn highlighted_html(
    code: Seq<char>,
    extension: Seq<char>,
    theme: Seq<char>,
) -> Option<Seq<char>>;

/// Whether syntect's bundled themes hold one called `name`.
pub uninterp spec fn bundled_theme_found(name: Seq<char>) -> bool;

/// Whether syntect's bundled syntax definitions (the newline variant) hold one for the
/// file extension `extension`.
pub uninterp spec fn bundled_syntax_found(extension: Seq<char>) -> bool;

/// A bundled syntax definition with the extension it was found by. Only
/// `syntax_for_extension` makes one, so the two always go together.
pub struct NamedSyntax {
    syntax: syntect::parsing::SyntaxReference,
    extension: String,
}

/// A bundled theme with the name it was found by. Only `theme_named` makes one, so the
/// two always go together.
pub struct NamedTheme {
    theme: syntect::highlighting::Theme,
    name: String,
}

impl NamedSyntax {
    /// The extension the syntax was found by.
    pub closed spec fn extension(&self) -> Seq<char> {
        self.extension@
    }
}

impl NamedTheme {
    /// The name the theme was found by.
    pub closed spec fn name(&self) -> Seq<char> {
        self.name@
    }
}

/// Calls `syntect::parsing::SyntaxSet::load_defaults_newlines`: the bundled syntax
/// definitions. Nothing is claimed of the value, which only the functions below read.
#[verifier::external_body]
pub(crate) fn load_syntaxes() -> (r: syntect::parsing::SyntaxSet) {
    syntect::parsing::SyntaxSet::load_defaults_newlines()
}

/// Calls `syntect::highlighting::ThemeSet::load_defaults`: the bundled themes. Nothing
/// is claimed of the value, which only `theme_named` reads.
#[verifier::external_body]
pub(crate) fn load_themes() -> (r: syntect::highlighting::ThemeSet) {
    syntect::highlighting::ThemeSet::load_defaults()
}

/// Looks a theme up by name in a theme set's `themes` map (`BTreeMap::get`) and
/// copies it, with the name. Every theme set comes from `load_themes`, so whether the
/// name is found is named by the name alone.
#[verifier::external_body]
pub(crate) fn theme_named(themes: &syntect::highlighting::ThemeSet, name: &str) -> (r: Option<NamedTheme>)
    ensures
        r is Some <==> bundled_theme_found(name@),
        r matches Some(t) ==> t.name() == name@,
{
    match themes.themes.get(name) {
        Some(t) => Some(NamedTheme { theme: t.clone(), name: name.to_owned() }),
        None => None,
    }
}

/// Calls `SyntaxSet::find_syntax_by_extension` and copies the syntax found, with the
/// extension. Every syntax set comes from `load_syntaxes`, so whether one is found is
/// named by the extension alone.
#[verifier::external_body]
pub(crate) fn syntax_for_extension(syntaxes: &syntect::parsing::SyntaxSet, extension: &str) -> (r: Option<
    NamedSyntax,
>)
    ensures
        r is Some <==> bundled_syntax_found(extension@),
        r matches Some(s) ==> s.extension() == extension@,
{
    match syntaxes.find_syntax_by_extension(extension) {
        Some(s) => Some(NamedSyntax { syntax: s.clone(), extension: extension.to_owned() }),
        None => None,
    }
}

/// Calls `syntect::html::highlighted_html_for_string` with a bundled syntax set, the
/// syntax and the theme. Both were found by name in the bundled sets, so the result
/// is named by the code and the two names. Besides, read from syntect's source: the
/// HTML opens with a `<pre ...>` line that ends in a line feed and closes with
/// `</pre>` and a line feed.
#[verifier::external_body]
pub(crate) fn highlight(
    code: &str,
    syntaxes: &syntect::parsing::SyntaxSet,
    syntax: &NamedSyntax,
    theme: &NamedTheme,
) -> (r: Result<String, syntect::Error>)
    ensures
        r is Ok <==> highlighted_html(code@, syntax.extension(), theme.name()) is Some,
        r matches Ok(t) ==> {
            &&& highlighted_html(code@, syntax.extension(), theme.name()) == Some(t@)
            &&& t@.len() > 0
            &&& t@.last() == '\n'
            &&& exists|i: int| 0 <= i < t@.len() - 1 && t@[i] == '\n'
        },
{
    syntect::html::highlighted_html_for_string(code, syntaxes, &syntax.syntax, &theme.theme)
}

} // verus!
