//! The renderer: content and a language hint in, highlighted HTML out.
//!
//! The highlighting itself is the work of the `syntect` crate, with the
//! syntaxes and themes that it ships. A hint that names none of its
//! syntaxes is not a failure: the content is then rendered as plain text.
//! Content with a line of more than `MAX_LINE_LEN` bytes is not handed to
//! `syntect` at all: it is answered with a failure.

use vstd::prelude::*;
use vstd::string::{StringExecFns, StringSliceAdditionalSpecFns};
use vstd::utf8::{decode_utf8, encode_utf8, encode_utf8_decode_utf8, valid_utf8};
use crate::errors::Error;
use crate::text::utf8_text;

verus! {

/// What one attempt to highlight came to.
#[derive(Debug, PartialEq, Eq)]
pub enum Rendering {
    /// No syntax goes by the hint.
    UnknownSyntax,
    /// No theme goes by the name.
    UnknownTheme,
    /// The content could not be tokenized; with the highlighter's words.
    ParsingFailed(String),
    /// The output could not be produced; with the highlighter's words.
    HighlightingFailed(String),
    /// The highlighted content, as HTML.
    Html(String),
}

impl Clone for Rendering {
    fn clone(&self) -> (copy: Rendering)
        ensures
            copy == *self,
    {
        match self {
            Rendering::UnknownSyntax => Rendering::UnknownSyntax,
            Rendering::UnknownTheme => Rendering::UnknownTheme,
            Rendering::ParsingFailed(words) => Rendering::ParsingFailed(words.clone()),
            Rendering::HighlightingFailed(words) => Rendering::HighlightingFailed(words.clone()),
            Rendering::Html(html) => Rendering::Html(html.clone()),
        }
    }
}

/// A `Rendering` as plain mathematical values.
pub enum RenderingView {
    UnknownSyntax,
    UnknownTheme,
    ParsingFailed(Seq<char>),
    HighlightingFailed(Seq<char>),
    Html(Seq<char>),
}

impl View for Rendering {
    type V = RenderingView;

    open spec fn view(&self) -> RenderingView {
        match self {
            Rendering::UnknownSyntax => RenderingView::UnknownSyntax,
            Rendering::UnknownTheme => RenderingView::UnknownTheme,
            Rendering::ParsingFailed(words) => RenderingView::ParsingFailed(words@),
            Rendering::HighlightingFailed(words) => RenderingView::HighlightingFailed(words@),
            Rendering::Html(html) => RenderingView::Html(html@),
        }
    }
}

/// The most bytes that a line may hold, its line feed apart, for the
/// content to be highlighted.
///
/// `syntect` panics where a pattern that it builds from a line is too large
/// to compile. Some syntaxes, for a heredoc or a raw string, take the
/// marker that opens the block from its line and put it into the pattern
/// that looks for the end of the block. The pattern is compiled to an
/// automaton of at most 10 MiB, in which every byte of the marker takes a
/// state of 32 bytes. With this bound a pattern could hold nine markers,
/// each as long as its line and with every byte escaped, and stay under
/// half of that: `9 * 2 * 8193 * 32` is less than 5 MiB. The patterns that
/// `syntect` ships hold one marker each.
pub const MAX_LINE_LEN: usize = 8192;

/// The number of bytes after the last line feed among the first `n` bytes:
/// how much of a line has been seen at that point.
pub open spec fn line_seen(bytes: Seq<u8>, n: int) -> nat
    decreases n,
{
    if n <= 0 || n > bytes.len() || bytes[n - 1] == 0x0a {
        0
    } else {
        1 + line_seen(bytes, n - 1)
    }
}

/// No line holds more than `MAX_LINE_LEN` bytes, its line feed apart.
pub open spec fn lines_fit(bytes: Seq<u8>) -> bool {
    forall|n: int| 0 <= n <= bytes.len() ==> #[trigger] line_seen(bytes, n) <= MAX_LINE_LEN
}

/// Whether no line holds more than `MAX_LINE_LEN` bytes, its line feed
/// apart.
pub fn fits_lines(content: &[u8]) -> (fit: bool)
    ensures
        fit == lines_fit(content@),
{
    let n: usize = content.len();
    let mut i: usize = 0;
    let mut seen: usize = 0;
    while i < n
        invariant
            i <= n,
            n == content@.len(),
            seen == line_seen(content@, i as int),
            forall|m: int| 0 <= m <= i ==> #[trigger] line_seen(content@, m) <= MAX_LINE_LEN,
        decreases n - i,
    {
        if content[i] == 0x0a {
            seen = 0;
        } else {
            seen += 1;
        }
        i += 1;
        assert(seen == line_seen(content@, i as int));
        if seen > MAX_LINE_LEN {
            return false;
        }
    }
    true
}

/// What `syntect` makes of a content, a hint and the name of a theme, with
/// the syntaxes and themes that it ships. Nothing is said here of what that
/// is; it is a name for what `highlight` returns.
pub uninterp spec fn syntect_rendering(
    content: Seq<char>,
    hint: Seq<char>,
    theme: Seq<char>,
) -> RenderingView;

/// Asks `syntect` to highlight `content`.
///
/// The syntax is looked up with `SyntaxSet::find_syntax_by_token` in
/// `SyntaxSet::load_defaults_newlines()`, the theme by its name in the
/// `BTreeMap` of `ThemeSet::load_defaults()`, and the HTML is made by
/// `syntect::html::highlighted_html_for_string`. A lookup without a result
/// and an error are handed on as they come; an error is `ParsingFailed`
/// where it is `syntect::Error::ParsingError`, with the words of the error
/// inside it, and `HighlightingFailed` with its own words otherwise.
///
/// Believed, not proved: that the call returns for content whose lines
/// fit, and that the result is a function of the three arguments. Both
/// sets are compiled into `syntect`, and none of the calls reads anything
/// but them and its arguments. Content with a longer line is left out,
/// because `syntect` may panic on it: see `MAX_LINE_LEN`.
#[verifier::external_body]
fn highlight(content: &str, hint: &str, theme: &str) -> (rendering: Rendering)
    requires
        lines_fit(content.spec_bytes()),
    ensures
        rendering@ == syntect_rendering(content@, hint@, theme@),
{
    let syntaxes = syntect::parsing::SyntaxSet::load_defaults_newlines();
    let themes = syntect::highlighting::ThemeSet::load_defaults();
    let syntax = match syntaxes.find_syntax_by_token(hint) {
        Some(syntax) => syntax,
        None => return Rendering::UnknownSyntax,
    };
    let theme = match std::collections::BTreeMap::get(&themes.themes, theme) {
        Some(theme) => theme,
        None => return Rendering::UnknownTheme,
    };
    match syntect::html::highlighted_html_for_string(content, &syntaxes, syntax, theme) {
        Ok(html) => Rendering::Html(html),
        Err(syntect::Error::ParsingError(e)) => Rendering::ParsingFailed(e.to_string()),
        Err(e) => Rendering::HighlightingFailed(e.to_string()),
    }
}

/// The hint under which plain text is rendered.
pub open spec fn plain_text_hint() -> Seq<char> {
    "txt"@
}

/// The description of the failure for a theme that does not exist.
pub open spec fn unknown_theme_text() -> Seq<char> {
    "unknown theme"@
}

/// The description of the failure for a highlighter without a syntax for
/// plain text.
pub open spec fn no_plain_text_text() -> Seq<char> {
    "no syntax for plain text"@
}

/// The description of the failure for content with a line that is too long
/// to be highlighted.
pub open spec fn long_line_text() -> Seq<char> {
    "line too long to highlight"@
}

/// The attempt that counts for a content, a hint and a theme: the one with
/// the hint where a syntax goes by it, else the one for plain text.
pub open spec fn settled_rendering(
    content: Seq<char>,
    hint: Seq<char>,
    theme: Seq<char>,
) -> RenderingView {
    if syntect_rendering(content, hint, theme) is UnknownSyntax {
        syntect_rendering(content, plain_text_hint(), theme)
    } else {
        syntect_rendering(content, hint, theme)
    }
}

/// Whether `result` is what the attempt that counts comes to: its HTML, a
/// `SyntaxParsing` failure where the content could not be tokenized, and a
/// `SyntaxHighlighting` failure for everything else.
pub open spec fn concludes(rendering: RenderingView, result: Result<String, Error>) -> bool {
    match rendering {
        RenderingView::Html(html) => result matches Ok(text) && text@ == html,
        RenderingView::ParsingFailed(words) => result matches Err(Error::SyntaxParsing(detail))
            && detail@ == words,
        RenderingView::HighlightingFailed(words) => result matches Err(
            Error::SyntaxHighlighting(detail),
        ) && detail@ == words,
        RenderingView::UnknownTheme => result matches Err(Error::SyntaxHighlighting(detail))
            && detail@ == unknown_theme_text(),
        RenderingView::UnknownSyntax => result matches Err(Error::SyntaxHighlighting(detail))
            && detail@ == no_plain_text_text(),
    }
}

/// Turns the attempt that counts into the result of the renderer.
pub fn conclude(rendering: Rendering) -> (result: Result<String, Error>)
    ensures
        concludes(rendering@, result),
{
    match rendering {
        Rendering::Html(html) => Ok(html),
        Rendering::ParsingFailed(words) => Err(Error::SyntaxParsing(words)),
        Rendering::HighlightingFailed(words) => Err(Error::SyntaxHighlighting(words)),
        Rendering::UnknownTheme => Err(
            Error::SyntaxHighlighting(String::from_str("unknown theme")),
        ),
        Rendering::UnknownSyntax => Err(
            Error::SyntaxHighlighting(String::from_str("no syntax for plain text")),
        ),
    }
}

/// Whether `result` is what rendering a text comes to: a
/// `SyntaxHighlighting` failure of its own where a line of the text is too
/// long, whatever the hint and the theme are, and else what the attempt
/// that counts comes to.
pub open spec fn rendered(
    content: Seq<char>,
    hint: Seq<char>,
    theme: Seq<char>,
    result: Result<String, Error>,
) -> bool {
    if lines_fit(encode_utf8(content)) {
        concludes(settled_rendering(content, hint, theme), result)
    } else {
        result matches Err(Error::SyntaxHighlighting(detail)) && detail@ == long_line_text()
    }
}

/// Renders `content` as highlighted HTML, in the syntax that goes by
/// `hint` and with the theme called `theme`. Where no syntax goes by the
/// hint the content is rendered as plain text, whatever the hint is.
/// Content with a line of more than `MAX_LINE_LEN` bytes is not rendered.
pub fn render(content: &str, hint: &str, theme: &str) -> (result: Result<String, Error>)
    ensures
        rendered(content@, hint@, theme@, result),
{
    if !fits_lines(content.as_bytes()) {
        return Err(Error::SyntaxHighlighting(String::from_str("line too long to highlight")));
    }
    let first = highlight(content, hint, theme);
    let settled = match first {
        Rendering::UnknownSyntax => highlight(content, "txt", theme),
        other => other,
    };
    conclude(settled)
}

/// The description of the failure for content that is no text.
pub open spec fn not_text_text() -> Seq<char> {
    "content is not UTF-8 text"@
}

/// Whether `result` is what rendering stored bytes comes to: a
/// `SyntaxParsing` failure where the bytes are no UTF-8 text, and else what
/// rendering the text that they encode comes to.
pub open spec fn renders(
    content: Seq<u8>,
    hint: Seq<char>,
    theme: Seq<char>,
    result: Result<String, Error>,
) -> bool {
    if valid_utf8(content) {
        rendered(decode_utf8(content), hint, theme, result)
    } else {
        result matches Err(Error::SyntaxParsing(detail)) && detail@ == not_text_text()
    }
}

/// Renders stored bytes: as `render` does where they are UTF-8 text.
pub fn render_bytes(content: &[u8], hint: &str, theme: &str) -> (result: Result<String, Error>)
    ensures
        renders(content@, hint@, theme@, result),
{
    match utf8_text(content) {
        Some(text) => {
            proof {
                encode_utf8_decode_utf8(text@);
            }
            render(text, hint, theme)
        },
        None => Err(Error::SyntaxParsing(String::from_str("content is not UTF-8 text"))),
    }
}

/// Rendering is a function of the content, the hint and the theme: whatever
/// two results come of one attempt, they are the same HTML, or failures of
/// the same kind with the same message.
pub proof fn lemma_one_attempt_one_result(
    rendering: RenderingView,
    one: Result<String, Error>,
    other: Result<String, Error>,
)
    requires
        concludes(rendering, one),
        concludes(rendering, other),
    ensures
        match (one, other) {
            (Ok(a), Ok(b)) => a@ == b@,
            (Err(a), Err(b)) => a.status_class() == b.status_class() && a.spec_message()
                == b.spec_message(),
            _ => false,
        },
{
}

/// An unknown hint makes no difference: any two hints that name no syntax
/// give the same attempt, the one for plain text.
pub proof fn lemma_unknown_hints_agree(
    content: Seq<char>,
    theme: Seq<char>,
    one: Seq<char>,
    other: Seq<char>,
)
    ensures
        syntect_rendering(content, one, theme) is UnknownSyntax && syntect_rendering(
            content,
            other,
            theme,
        ) is UnknownSyntax ==> settled_rendering(content, one, theme) == settled_rendering(
            content,
            other,
            theme,
        ),
        syntect_rendering(content, one, theme) is UnknownSyntax ==> settled_rendering(
            content,
            one,
            theme,
        ) == syntect_rendering(content, plain_text_hint(), theme),
{
}

} // verus!
