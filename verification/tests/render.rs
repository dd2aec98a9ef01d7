use paste_core::errors::Error;
use paste_core::render::{conclude, fits_lines, render, render_bytes, Rendering, MAX_LINE_LEN};
use syntect::parsing::syntax_definition::Pattern;
use syntect::parsing::SyntaxSet;

const THEME: &str = "InspiredGitHub";

#[test]
fn html_is_the_result() {
    assert_eq!(
        conclude(Rendering::Html(String::from("<pre>x</pre>"))),
        Ok(String::from("<pre>x</pre>"))
    );
}

#[test]
fn failed_tokenizing_is_a_parsing_failure() {
    assert_eq!(
        conclude(Rendering::ParsingFailed(String::from("Missing context"))),
        Err(Error::SyntaxParsing(String::from("Missing context")))
    );
}

#[test]
fn failed_output_is_a_highlighting_failure() {
    assert_eq!(
        conclude(Rendering::HighlightingFailed(String::from("Formatting error"))),
        Err(Error::SyntaxHighlighting(String::from("Formatting error")))
    );
}

#[test]
fn unknown_theme_is_a_highlighting_failure() {
    assert_eq!(
        conclude(Rendering::UnknownTheme),
        Err(Error::SyntaxHighlighting(String::from("unknown theme")))
    );
}

#[test]
fn missing_plain_text_syntax_is_a_highlighting_failure() {
    assert_eq!(
        conclude(Rendering::UnknownSyntax),
        Err(Error::SyntaxHighlighting(String::from("no syntax for plain text")))
    );
}

#[test]
fn rendering_failures_are_internal_errors() {
    let err = conclude(Rendering::ParsingFailed(String::from("x"))).unwrap_err();
    assert_eq!(err.status().code(), 500);
    assert_eq!(err.message(), "syntax parsing error: x");
    let err = conclude(Rendering::UnknownTheme).unwrap_err();
    assert_eq!(err.status().code(), 500);
    assert_eq!(err.message(), "syntax highlighting error: unknown theme");
}

#[test]
fn plain_text_is_rendered_escaped_and_unhighlighted() {
    let html = render("a < b && c > d\n", "txt", THEME).unwrap();
    assert_eq!(
        html,
        "<pre style=\"background-color:#ffffff;\">\n<span style=\"color:#323232;\">a &lt; b &amp;&amp; c &gt; d\n</span></pre>\n"
    );
}

#[test]
fn known_hint_is_highlighted() {
    let source = "fn main() {}\n";
    let highlighted = render(source, "rs", THEME).unwrap();
    let plain = render(source, "txt", THEME).unwrap();
    assert_ne!(highlighted, source);
    assert_ne!(highlighted, plain);
    assert!(highlighted.starts_with("<pre style=\"background-color:#ffffff;\">\n"));
    assert!(highlighted.ends_with("</pre>\n"));
    assert!(highlighted.contains("main"));
    assert!(highlighted.matches("<span").count() > plain.matches("<span").count());
}

#[test]
fn hint_is_a_file_extension_or_a_syntax_name() {
    let source = "fn main() {}\n";
    assert_eq!(render(source, "rs", THEME), render(source, "Rust", THEME));
    assert_eq!(render(source, "rs", THEME), render(source, "rust", THEME));
}

#[test]
fn unknown_hint_falls_back_to_plain_text() {
    let source = "fn main() { let x = \"<tag>\"; }\n";
    let plain = render(source, "txt", THEME);
    assert!(plain.is_ok());
    for hint in ["", "no-such-language", "rs ", "../rs", "\u{0}", "текст"] {
        assert_eq!(render(source, hint, THEME), plain, "{:?}", hint);
    }
}

#[test]
fn unknown_theme_fails_whatever_the_hint() {
    let expected = Err(Error::SyntaxHighlighting(String::from("unknown theme")));
    assert_eq!(render("x\n", "rs", "no-such-theme"), expected);
    assert_eq!(render("x\n", "txt", "no-such-theme"), expected);
    assert_eq!(render("x\n", "no-such-language", "no-such-theme"), expected);
    assert_eq!(render("x\n", "rs", ""), expected);
}

#[test]
fn themes_differ() {
    let light = render("x\n", "txt", "InspiredGitHub").unwrap();
    let dark = render("x\n", "txt", "base16-ocean.dark").unwrap();
    assert_ne!(light, dark);
    assert!(dark.starts_with("<pre style=\"background-color:#2b303b;\">\n"), "{}", dark);
}

#[test]
fn rendering_is_the_same_every_time() {
    let source = "#include <stdio.h>\nint main(void) { return 0; }\n";
    let first = render(source, "c", THEME);
    assert!(first.is_ok());
    assert_eq!(render(source, "c", THEME), first);
    assert_eq!(render("fn f() {}\n", "rs", THEME), render("fn f() {}\n", "rs", THEME));
    assert_eq!(render(source, "c", THEME), first);
}

#[test]
fn empty_content_renders_as_an_empty_block() {
    assert_eq!(
        render("", "rs", THEME),
        Ok(String::from("<pre style=\"background-color:#ffffff;\">\n</pre>\n"))
    );
}

#[test]
fn bytes_that_are_text_render_as_the_text() {
    let source = "let s = \"sn\u{f6}\";\n";
    assert_eq!(render_bytes(source.as_bytes(), "rs", THEME), render(source, "rs", THEME));
    assert!(render_bytes(source.as_bytes(), "rs", THEME).unwrap().contains("sn\u{f6}"));
}

#[test]
fn bytes_that_are_no_text_are_a_parsing_failure() {
    let expected = Err(Error::SyntaxParsing(String::from("content is not UTF-8 text")));
    assert_eq!(render_bytes(&[0xff], "rs", THEME), expected);
    assert_eq!(render_bytes(&[b'a', 0xc3], "txt", THEME), expected);
    assert_eq!(render_bytes(&[0xed, 0xa0, 0x80], "txt", THEME), expected);
    assert_eq!(render_bytes(&[0xc0, 0x80], "txt", "no-such-theme"), expected);
}

fn renders_in(hints: &[&str]) {
    let source = "// a comment\nint x = 1; /* more */\n\"a string\" 'c' 12.5e3\nif (x) { return x; } else { y(); }\n# hash\n<tag attr=\"v\">text</tag>\nkey: value\n";
    for hint in hints {
        let html = render(source, hint, THEME).unwrap();
        assert!(html.starts_with("<pre style=\"background-color:#ffffff;\">\n"), "{}", hint);
        assert!(html.ends_with("</pre>\n"), "{}", hint);
        assert!(html.contains("comment"), "{}", hint);
    }
}

#[test]
fn languages_of_the_c_family_render() {
    renders_in(&["c", "cpp", "h", "java", "cs", "go", "rs", "js", "m", "d"]);
}

#[test]
fn scripting_languages_render() {
    renders_in(&["py", "rb", "pl", "php", "lua", "sh", "tcl", "r", "bat", "groovy"]);
}

#[test]
fn markup_and_data_languages_render() {
    renders_in(&["html", "xml", "css", "json", "yaml", "md", "tex", "sql", "diff", "rst"]);
}

#[test]
fn functional_languages_render() {
    renders_in(&["hs", "ml", "clj", "erl", "lisp", "scala", "pas", "mk", "dot", "as"]);
}

fn long_line() -> Result<String, Error> {
    Err(Error::SyntaxHighlighting(String::from("line too long to highlight")))
}

/// A block that is opened by a marker and closed by the same marker.
fn heredoc(opening: &str, marker_len: usize) -> String {
    let marker = "A".repeat(marker_len);
    format!("{}{}\nbody\n{}\n", opening, marker, marker)
}

#[test]
fn longest_line_is_8192_bytes() {
    assert_eq!(MAX_LINE_LEN, 8192);
}

#[test]
fn lines_up_to_the_bound_fit() {
    assert!(fits_lines(b""));
    assert!(fits_lines(b"\n\n\n"));
    assert!(fits_lines(b"short\nlines\n"));
    assert!(fits_lines(&vec![b'x'; 8192]));
    let mut lines = vec![b'x'; 8192];
    lines.push(b'\n');
    lines.extend_from_slice(&vec![b'y'; 8192]);
    lines.push(b'\n');
    assert!(fits_lines(&lines));
    lines.extend_from_slice(&vec![b'z'; 8192]);
    assert!(fits_lines(&lines));
}

#[test]
fn line_over_the_bound_does_not_fit() {
    assert!(!fits_lines(&vec![b'x'; 8193]));
    let mut first = vec![b'x'; 8193];
    first.extend_from_slice(b"\nshort\n");
    assert!(!fits_lines(&first));
    let mut last = b"short\n".to_vec();
    last.extend_from_slice(&vec![b'x'; 8193]);
    assert!(!fits_lines(&last));
    let mut middle = b"short\n".to_vec();
    middle.extend_from_slice(&vec![b'x'; 8193]);
    middle.extend_from_slice(b"\nshort\n");
    assert!(!fits_lines(&middle));
}

#[test]
fn only_a_line_feed_ends_a_line() {
    let mut carriage = vec![b'x'; 8000];
    carriage.push(b'\r');
    carriage.extend_from_slice(&vec![b'y'; 8000]);
    assert!(!fits_lines(&carriage));
    carriage[8000] = b'\n';
    assert!(fits_lines(&carriage));
}

#[test]
fn content_with_a_line_over_the_bound_is_not_rendered() {
    let content = "x".repeat(8193);
    assert_eq!(render(&content, "txt", THEME), long_line());
    assert_eq!(render(&content, "rs", THEME), long_line());
    assert_eq!(render(&content, "no-such-language", THEME), long_line());
    assert_eq!(render_bytes(content.as_bytes(), "rs", THEME), long_line());
    let content = format!("fn main() {{}}\n// {}\nfn f() {{}}\n", "x".repeat(8190));
    assert_eq!(render(&content, "rs", THEME), long_line());
}

#[test]
fn long_line_is_reported_before_an_unknown_theme() {
    let content = "x".repeat(8193);
    assert_eq!(render(&content, "rs", "no-such-theme"), long_line());
    let content = "x".repeat(8192);
    assert_eq!(
        render(&content, "rs", "no-such-theme"),
        Err(Error::SyntaxHighlighting(String::from("unknown theme")))
    );
}

#[test]
fn bound_counts_bytes_not_characters() {
    let content = "\u{e9}".repeat(4096);
    assert_eq!(content.len(), 8192);
    assert!(render(&content, "txt", THEME).is_ok());
    let content = "\u{e9}".repeat(4097);
    assert_eq!(render(&content, "txt", THEME), long_line());
}

#[test]
fn content_with_lines_at_the_bound_is_rendered() {
    let content = format!("{}\n{}\n{}", "x".repeat(8192), "y".repeat(8192), "z".repeat(8192));
    let html = render(&content, "txt", THEME).unwrap();
    assert!(html.contains(&"y".repeat(8192)));
    assert!(render(&content, "rs", THEME).is_ok());
}

#[test]
fn marker_far_over_the_bound_is_not_handed_to_the_highlighter() {
    // a marker of this length makes a pattern that cannot be compiled
    assert_eq!(render(&heredoc("x = <<", 400_000), "rb", THEME), long_line());
    assert_eq!(render(&heredoc("cat <<", 400_000), "sh", THEME), long_line());
    assert_eq!(render_bytes(heredoc("x = <<", 400_000).as_bytes(), "rb", THEME), long_line());
}

#[test]
fn marker_at_the_bound_is_highlighted() {
    for (opening, hint) in [("x = <<", "rb"), ("x = <<~", "rb"), ("cat <<", "sh"), ("cat <<-", "sh")] {
        let content = heredoc(opening, MAX_LINE_LEN - opening.len());
        assert!(fits_lines(content.as_bytes()));
        let html = render(&content, hint, THEME).unwrap();
        assert!(html.contains("body"), "{}", hint);
        assert!(html.ends_with("</pre>\n"), "{}", hint);
        let over = heredoc(opening, MAX_LINE_LEN - opening.len() + 1);
        assert_eq!(render(&over, hint, THEME), long_line(), "{}", hint);
    }
}

#[test]
fn raw_string_with_hashes_up_to_the_bound_is_highlighted() {
    let hashes = "#".repeat(4000);
    let content = format!("let s = r{}\"text\"{};\n", hashes, hashes);
    assert!(fits_lines(content.as_bytes()));
    assert!(render(&content, "rs", THEME).unwrap().contains("text"));
}

/// The number of places at which a pattern takes in what an earlier match
/// has captured: a digit after a backslash that is not itself escaped.
fn references(pattern: &str) -> usize {
    let mut count = 0;
    let mut escaped = false;
    for c in pattern.chars() {
        if escaped && c.is_ascii_digit() {
            count += 1;
        }
        escaped = c == '\\' && !escaped;
    }
    count
}

#[test]
fn shipped_patterns_take_in_few_captures() {
    let syntaxes = SyntaxSet::load_defaults_newlines().into_builder();
    let mut with_references = 0;
    for syntax in syntaxes.syntaxes() {
        for context in syntax.contexts.values() {
            for pattern in &context.patterns {
                if let Pattern::Match(matcher) = pattern {
                    if matcher.has_captures {
                        with_references += 1;
                        let text = matcher.regex.regex_str();
                        // one each; the bound on lines allows for nine
                        assert!(references(text) <= 1, "{}: {}", syntax.name, text);
                        assert!(text.len() <= 1024, "{}: {}", syntax.name, text);
                    }
                }
            }
        }
    }
    assert!(with_references > 0);
}
