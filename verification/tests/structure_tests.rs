use latex_snippet::{html_string, physics_macros};

#[test]
fn test_physics_macros() {
    assert_eq!(
        r"\({\mkern3mu\mathchar&#x27;26\mkern-12mu d} X\)",
        &html_string(&physics_macros(r"$\dbar X$"))
    );

    assert_eq!(
        "\n\\left\\langle {foo}\\right|\nbar\n\\left|{baz}\\right\\rangle \n\n{\\mkern3mu\\mathchar'26\\mkern-12mu d} X\n\n\\left(\\frac{\\partial {T}}{\\partial {p}}\\right)_{V}\n\n\\left(\\frac{\\partial {T}}{\\partial {p}}\\right)_{V}\n\n",
        &physics_macros(
            r"
\bra{foo}
bar
\ket{baz}

\dbar X

\thermoderivative{T}{p}{V}

\myderiv{T}{p}{V}

",
        )
    );

    assert_eq!(
        r"  \left\langle {1}\middle|{0}\right\rangle   ",
        &physics_macros(r"  \bra{1}\ket{0}  ")
    );
}

#[test]
fn paragraph_breaking_bug() {
    assert_eq!(
        "<p>\nFirst paragraph.\n\n<ul><li>First\n</li><li>Second\n</li></ul>\n\n</p><p>Second paragraph.\n</p>",
        &html_string(
            r#"
First paragraph.

\begin{itemize}
\item First
\item Second
\end{itemize}

Second paragraph.
"#
        )
    );
    assert_eq!(
        "<p>\nFirst paragraph.\n\n<ul><li>First\n\n</li><li>Second\n</li></ul>\n\n</p><p>Second paragraph.\n</p>",
        &html_string(
            r#"
First paragraph.

\begin{itemize}
\item First

\item Second
\end{itemize}

Second paragraph.
"#
        )
    );
    assert_eq!(
        "<p>\nFirst paragraph.\n\n<dl><dt>First</dt><dd> First\n\n</dd><dt>Second</dt><dd> Second\n</dd></dl>\n\n</p><p>Second paragraph.\n</p>",
        &html_string(
            r#"
First paragraph.

\begin{description}
\item[First] First

\item[Second] Second
\end{description}

Second paragraph.
"#
        )
    );
}

#[test]
fn href() {
    assert_eq!(
        r#"  <a href="url%20with%20spaces">test</a>"#,
        &html_string(r"  \href{url with spaces}{test}")
    );
    assert_eq!(
        r#"  <a href="url%20with%20spaces">test</a>"#,
        &html_string(r"  \href{url\%20with\%20spaces}{test}")
    );
}

#[test]
fn escape_accent() {
    assert_eq!(
        r#"Andr&eacute;-Marie Amp&egrave;re"#,
        &html_string(r"Andr\'e-Marie Amp\`ere")
    );
    assert_eq!(r#"Schr&ouml;dinger"#, &html_string(r#"Schr\"odinger"#));
    assert_eq!(
        r"&#8491; is the symbol for Angstrom",
        &html_string(r#"\AA\ is the symbol for Angstrom"#)
    );
    assert_eq!(
        r#"Andr&eacute;-Marie &Acirc;mp&egrave;re"#,
        &html_string(r"Andr\'e-Marie \^Amp\`ere")
    );
}

#[test]
fn nbsp() {
    assert_eq!(
        r#"Temperature is 300&nbsp;K"#,
        &html_string(r"Temperature is 300~K")
    );
}

#[test]
fn escape_dollar() {
    assert_eq!(
        r#"hello<i><span>$</span>world</i>"#,
        &html_string(r"hello\it\$world")
    );
}

#[test]
fn paragraphs_after_math() {
    assert_eq!(
        "<p>\nParagraph before the math.\n\n</p><p>Start a paragraph.\n\\begin{align}\n  y &amp;= x^2\n\\end{align}\nStill in the same paragraph.\n\n</p><p>This is a new paragraph.\n</p>",
        &html_string(
            r#"
Paragraph before the math.

Start a paragraph.
\begin{align}
  y &= x^2
\end{align}
Still in the same paragraph.

This is a new paragraph.
"#,
        )
    );
    assert_eq!(
        "\n<blockquote class=\"solution\"><p>\nParagraph before the math.\n\n</p><p>Start a paragraph.\n\\begin{align}\n  y &amp;= x^2\n\\end{align}\nStill in the same paragraph.\n\n</p><p>This is a new paragraph.\n</p></blockquote>\n",
        &html_string(
            r#"
\begin{solution}
Paragraph before the math.

Start a paragraph.
\begin{align}
  y &= x^2
\end{align}
Still in the same paragraph.

This is a new paragraph.
\end{solution}
"#,
        )
    );
}

#[test]
fn definition() {
    assert_eq!(
        "\n<dl><span class=\"error\">\nbuggy\n</span><dt>tasty</dt><dd> Apples\n</dd><dt>nice</dt><dd> Oranges\n</dd><dt>good for you</dt><dd> Vegetables\n<ol><li>Carrots\n</li><li>Potatotes\n</li></ol>\n</dd><dd>Pears\n</dd></dl>\nsome more stuff\n",
        &html_string(
            r"
\begin{description}
buggy
\item[tasty] Apples
\item[nice] Oranges
\item[good for you] Vegetables
\begin{enumerate}
\item Carrots
\item Potatotes
\end{enumerate}
\item Pears
\end{description}
some more stuff
",
        )
    );
    assert_eq!(
        "<dl><dt>tasty</dt><dd> Apples\n</dd><dd>Oranges\n</dd></dl>\nMore valid text.",
        &html_string(
            r"\begin{description}
\item[tasty] Apples
\item Oranges
\end{description}
More valid text.",
        )
    );
}

#[test]
fn tabular() {
    assert_eq!(
        r"
<table><tr><td>
foo </td><td> bar </td><td> baz </td></tr><tr><td>
extra </td><td> good
</td></tr></table>
",
        &html_string(
            r"
\begin{tabular}{ccc}
foo & bar & baz \\
extra & good
\end{tabular}
"
        )
    );

    assert_eq!(
        "\n<table><tr><td>\nfoo </td><td> bar </td><td> baz </td></tr><tr><td>\n</td></tr><tr style=\"border-bottom:1px solid black\"><td colspan=\"100%\"></td></tr>\n<tr><td>\nextra </td><td> good\n</td></tr></table>\n",
        &html_string(
            r"
\begin{tabular}{ccc}
foo & bar & baz \\
\hline
extra & good
\end{tabular}
",
        )
    );
}

#[test]
fn superscripts() {
    assert_eq!(r"H\(^2\)O", &html_string(r"H$^2$O"));
    assert_eq!(r"H\(^{2}\)O", &html_string(r"H$^{2}$O"));
}

#[test]
fn degree() {
    assert_eq!(r"15 \(^\circ\)C", &html_string(r"15 $^\circ$C"));
}

#[test]
fn object_to_unicode() {
    assert_eq!("Andr\u{e9}-Marie Amp\u{e8}re", &html_string("Andr\u{e9}-Marie Amp\u{e8}re"));
    assert_eq!("Schr\u{f6}dinger", &html_string("Schr\u{f6}dinger"));
    assert_eq!(
        "Unicode \u{201c}quotes\u{201d}",
        &html_string("Unicode \u{201c}quotes\u{201d}")
    );
}

#[test]
fn verbatim() {
    assert_eq!(
        "\n<span class=\"error\">\\begin{verbatim}\npub fn strip_comments(latex: &amp;str) -&gt; String {\n    let temp = latex.replace(r&quot;\\%&quot;, r&quot;\\%&quot;);\n    let mut out = String::with_capacity(temp.len() + 1);\n    for x in temp.split(&#x27;\\n&#x27;) {\n        if x.chars().next() == Some(&#x27;             continue; &#x2f;&#x2f; skip this line entirely\n        }\n        if let Some(i) = x.find(&#x27;             out.push_str(&amp;x[..i]);\n            out.push(&#x27; &#x27;); &#x2f;&#x2f; comment &quot;blocks&quot; line ending.\n        } else {\n            out.push_str(x);\n            out.push(&#x27;\\n&#x27;)\n        }\n    }\n    out.pop();\n    out.replace(r&quot;\\%&quot;, r&quot;\\%&quot;)\n}\n\\end{verbatim}</span>\n",
        &html_string(
            "\n\\begin{verbatim}\npub fn strip_comments(latex: &str) -> String {\n    let temp = latex.replace(r\"\\%\", r\"\\percent_holder\");\n    let mut out = String::with_capacity(temp.len() + 1);\n    for x in temp.split('\\n') {\n        if x.chars().next() == Some('%') {\n            continue; // skip this line entirely\n        }\n        if let Some(i) = x.find('%') {\n            out.push_str(&x[..i]);\n            out.push(' '); // comment \"blocks\" line ending.\n        } else {\n            out.push_str(x);\n            out.push('\\n')\n        }\n    }\n    out.pop();\n    out.replace(r\"\\percent_holder\", r\"\\%\")\n}\n\\end{verbatim}\n",
        )
    );
    assert_eq!(
        "  <span class=\"error\">\\verb</span>!This &lt; is cool.! it really is",
        &html_string(r#"  \verb!This < is cool.! it really is"#)
    );
}
