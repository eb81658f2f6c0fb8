use latex_snippet::{html_string, strip_comments, MAX_DEPTH};

#[test]
fn empty_document() {
    assert_eq!("", &html_string(""));
}

#[test]
fn formatting_macros_wrap_plain_text() {
    assert_eq!("<b>hi</b>", &html_string(r"\textbf{hi}"));
    assert_eq!("<i>hi</i>", &html_string(r"\textit{hi}"));
    assert_eq!("<em>hi</em>", &html_string(r"\emph{hi}"));
    assert_eq!("<u>hi</u>", &html_string(r"\underline{hi}"));
    assert_eq!(
        "<figcaption>hi</figcaption>",
        &html_string(r"\caption{hi}")
    );
    assert_eq!(
        "<sup>*</sup><aside><sup>*</sup>hi</aside>",
        &html_string(r"\footnote{hi}")
    );
}

#[test]
fn formatting_macro_around_white_space() {
    assert_eq!("<b></b>", &html_string(r"\textbf{ }"));
    assert_eq!("<b></b>", &html_string(r"\textbf{}"));
}

#[test]
fn switches_reach_to_the_end() {
    assert_eq!("a <b>b c</b>", &html_string(r"a \bf b c"));
    assert_eq!(
        "a <font style=\"font-variant: small-caps\">b</font>",
        &html_string(r"a \sc b")
    );
    assert_eq!(
        "a <div class=\"center\">b</div>",
        &html_string(r"a \centering b")
    );
}

#[test]
fn diagnostics_pass_through() {
    assert_eq!(
        "<span class=\"warning\">careful</span>",
        &html_string(r"\warning{careful}")
    );
    assert_eq!(
        "<span class=\"error\">wrong</span>",
        &html_string(r"\error{wrong}")
    );
}

#[test]
fn unmatched_open() {
    assert_eq!(
        "<span class=\"error\">\\begin{broken}</span>\nstuff",
        &html_string("\\begin{broken}\nstuff")
    );
}

#[test]
fn unmatched_close() {
    assert_eq!(
        "<p>a </p><p><span class=\"error\">\\end{itemize}</span> b</p>",
        &html_string(r"a \end{itemize} b")

    );
}

#[test]
fn stray_close_at_the_start_of_a_paragraph() {
    assert_eq!(
        "<p><span class=\"error\">\\end{x}</span> tail</p>",
        &html_string(r"\end{x} tail")
    );
}

#[test]
fn unknown_macros() {
    assert_eq!(
        "a<span class=\"error\">\\foo</span>b",
        &html_string(r"a\foo{}b")
    );
    assert_eq!(
        "a<span class=\"error\">\\&#x27;</span>1",
        &html_string(r"a\'1")
    );
    assert_eq!(
        "a<span class=\"error\">\\^</span>",
        &html_string(r"a\^")
    );
    assert_eq!(
        "<span class=\"error\">\\verb</span>!x!",
        &html_string(r"\verb!x!")
    );
}

#[test]
fn unbalanced_arguments() {
    assert_eq!(
        "<span class=\"error\">\\emph{</span>foo",
        &html_string(r"\emph{foo")
    );
    assert_eq!(
        "<span class=\"error\">\\vfill{</span>foo",
        &html_string(r"\vfill{foo")
    );
    assert_eq!(
        "<span class=\"error\">\\paragraph*{</span>foo",
        &html_string(r"\paragraph*{foo")
    );
    assert_eq!(
        "<span class=\"error\" data-error=\"bad-argument\">\\url{</span>foo",
        &html_string(r"\url{foo")
    );
    assert_eq!(
        "<span class=\"error\">\\href{</span>foo",
        &html_string(r"\href{foo")
    );
    assert_eq!(
        "<span class=\"error\">\\href{a}{</span>foo",
        &html_string(r"\href{a}{foo")
    );
    assert_eq!(
        "<span class=\"error\">\\textcolor{red}{</span>foo",
        &html_string(r"\textcolor{red}{foo")
    );
    assert_eq!(
        "<span class=\"error\">\\includegraphics{</span>foo",
        &html_string(r"\includegraphics{foo")
    );
    assert_eq!(
        "a<span class=\"error\">{</span>b",
        &html_string(r"a{b")
    );
    assert_eq!(
        "<span class=\"error\">\\section{</span>foo",
        &html_string(r"\section{foo")
    );
}

#[test]
fn unclosed_mathematics() {
    assert_eq!(
        "a<span class=\"error\">$</span>x",
        &html_string(r"a$x")
    );
    assert_eq!(
        "a<span class=\"error\">$$</span>x",
        &html_string(r"a$$x")
    );
    assert_eq!(
        "a<span class=\"error\">\\(</span>x",
        &html_string(r"a\(x")
    );
    assert_eq!(
        "a<span class=\"error\">\\[</span>x",
        &html_string(r"a\[x")
    );
    assert_eq!(
        "<span class=\"error\">\\begin{align}</span>x",
        &html_string(r"\begin{align}x")
    );
}

#[test]
fn mathematics_is_escaped_but_kept() {
    assert_eq!(r"\(a &lt; b\)", &html_string(r"$a < b$"));
    assert_eq!(r"\[a &amp; b\]", &html_string(r"$$a & b$$"));
    assert_eq!(r"\(x\) y \(z\)", &html_string(r"\(x\) y \(z\)"));
}

#[test]
fn reserved_characters_are_escaped() {
    assert_eq!(
        "&lt;a href=&quot;x&quot;&gt; &amp; &#x27;y&#x27; &#x2f;",
        &html_string("<a href=\"x\"> & 'y' /")
    );
    assert_eq!("\u{201d}&#x27;", &html_string("'''"));
    assert_eq!("\u{201c}`", &html_string("```"));
}

#[test]
fn text_outside_ascii() {
    assert_eq!("Andr\u{e9} \u{4eac}", &html_string("Andr\u{e9} \u{4eac}"));
    assert_eq!(
        "<span class=\"error\">\\\u{e9}t\u{e9}</span>",
        &html_string("\\\u{e9}t\u{e9}")
    );
    assert_eq!(
        "<span class=\"error\">\\\u{2192}</span>x",
        &html_string("\\\u{2192}x")
    );
    assert_eq!(
        "<span class=\"error\">\\textbf\u{e9}</span>",
        &html_string("\\textbf\u{e9}")
    );
    assert_eq!("<b>1</b>\u{e9}", &html_string("\\textbf1\u{e9}"));
}

#[test]
fn links() {
    assert_eq!(
        "<a href=\"http://a.b\">text</a>",
        &html_string(r"\href{http://a.b}{text}")
    );
    assert_eq!(
        "<a target=\"_parent\" href=\"https://a.b\">https://a.b</a>",
        &html_string(r"\url{https://a.b}")
    );
    assert_eq!(
        "<a href=\"a.b\">a.b</a>",
        &html_string(r"\url{a.{b}}")
    );
    assert_eq!(
        "<a href=\"a%20b%\">a%20b%</a>",
        &html_string(r"\url{a b\%}")
    );
}

#[test]
fn colours() {
    assert_eq!(
        "<span style=\"color:red;\">x</span>",
        &html_string(r"\textcolor{red}{x}")
    );
    assert_eq!(
        "<span class=\"error\">\\textcolor{Invalid color pink Allowed colors: red, blue, forestgreen, purple, brown, gray, orange}</span>x",
        &html_string(r"\textcolor{pink}{x}")
    );
}

#[test]
fn references_and_labels() {
    assert_eq!(r"\eqref{a}", &html_string(r"\eqref{a}"));
    assert_eq!(
        "<span class=\"error\">\\label{a}</span>",
        &html_string(r"\label{a}")
    );
}

#[test]
fn spacing_and_breaks() {
    assert_eq!("a<br/>b", &html_string(r"a\vspace{1em}b"));
    assert_eq!("a<br/> b", &html_string(r"a\newpage b"));
    assert_eq!("a<br/>b", &html_string(r"a\\b"));
    assert_eq!("a\\ b", &html_string(r"a\textbackslash b"));
    assert_eq!("a b", &html_string(r"a\noindent b"));
    assert_eq!("a b", &html_string(r"a\ b"));
    assert_eq!("a#_<span>$</span>&amp;...", &html_string(r"a\#\_\$\&\ldots"));
}

#[test]
fn run_in_heading() {
    assert_eq!(
        "<h5>Title</h5>rest",
        &html_string("\\paragraph*{Title}   \n rest")
    );
}

#[test]
fn images() {
    assert_eq!(
        "<img style=\"width:3cm\" src=\"a&#x2f;b\"/>",
        &html_string(r"\includegraphics[3cm]{a/b}")
    );
    assert_eq!(
        "<img style=\"width:25%\" src=\"f\"/>",
        &html_string(r"\includegraphics[width=0.25\textwidth]{f}")
    );
    assert_eq!("<img src=\"\"/>", &html_string(r"\includegraphics"));
    assert_eq!("<img src=\"\"/>x", &html_string(r"\includegraphics x"));
}

#[test]
fn figures() {
    assert_eq!(
        "<span class=\"error\">\\begin{figure}</span>",
        &html_string(r"\begin{figure}")
    );
    assert_eq!(
        "<span class=\"error\">\\begin{figure}</span>[htx",
        &html_string(r"\begin{figure}[htx")
    );
    assert_eq!(
        "<figure class=\"wrapfigure center\" style=\"width:33.3%\">x</figure>",
        &html_string(r"\begin{wrapfigure}{l}{0.333\linewidth}\centering x\end{wrapfigure}")
    );
    assert_eq!(
        "<figure class=\"wrapfigure\" style=\"width:100%\">x</figure>",
        &html_string(r"\begin{wrapfigure}{l}{1\columnwidth}x\end{wrapfigure}")
    );
}

#[test]
fn centred_figures() {
    assert_eq!(
        "<figure class=\"center\">foo</figure>",
        &html_string("\\begin{figure}\\centering\nfoo\\end{figure}")
    );
    assert_eq!(
        "<figure><div class=\"center\"> foo</div></figure>",
        &html_string("\\begin{figure}\\centering\\noindent foo\\end{figure}")
    );
}

#[test]
fn blocks() {
    assert_eq!(
        "<blockquote>x</blockquote>y",
        &html_string(r"\begin{quote}x\end{quote}y")
    );
    assert_eq!(
        "<blockquote>x</blockquote>y",
        &html_string(r"\begin{quotation}x\end{quotation}y")
    );
    assert_eq!(
        "<span class=\"error\">\\begin{center}</span>x",
        &html_string(r"\begin{center}x")
    );
    assert_eq!(
        "<blockquote class=\"guide\">x</blockquote>",
        &html_string(r"\begin{guide}x\end{guide}")
    );
    assert_eq!("ab", &html_string("a\\begin{handout} \n \\end{handout}b"));
    assert_eq!(
        "<span class=\"error\">\\begin{handout}</span>x",
        &html_string(r"\begin{handout}x")
    );
}

#[test]
fn table_with_escaped_ampersand() {
    assert_eq!(
        "<table><tr><td>a &amp; b</td><td>c</td></tr><tr><td>d</td></tr></table>",
        &html_string(r"\begin{tabular}{ll}a \& b&c\\d\end{tabular}")
    );
    assert_eq!(
        "<table><tr><td>l</td></tr></table>",
        &html_string(r"\begin{tabular}{l\end{tabular}")
    );
    assert_eq!(
        "<table><tr><td></td></tr></table>}",
        &html_string(r"\begin{tabular}{l\end{tabular}}")
    );
}

#[test]
fn nested_lists_keep_their_items() {
    assert_eq!(
        "<ul><li>a<ul><li>b</li><li>c</li></ul></li><li>d</li></ul>",
        &html_string(
            r"\begin{itemize}\item a\begin{itemize}\item b\item c\end{itemize}\item d\end{itemize}"
        )
    );
}

#[test]
fn lists_open_and_close_in_pairs() {
    let html = html_string(
        r"\begin{itemize}\item a\item b\begin{itemize}\item c\item d\end{itemize} e\item f\end{itemize}",
    );
    assert_eq!(
        "<ul><li>a</li><li>b<ul><li>c</li><li>d</li></ul> e</li><li>f</li></ul>",
        &html
    );
    assert_eq!(html.matches("<ul>").count(), html.matches("</ul>").count());
    assert_eq!(html.matches("<li>").count(), html.matches("</li>").count());
    for text in [
        r"\begin{itemize}\item a\end{enumerate}",
        r"\begin{itemize}\item a\end{description}",
        r"\begin{itemize}\item a",
        r"\begin{itemize}",
        r"\begin{itemize}\item \begin{itemize}\item a\end{itemize}",
        r"\begin{enumerate}\item \begin{itemize}\end{enumerate}",
    ] {
        let html = html_string(text);
        assert_eq!(html.matches("<ul>").count(), html.matches("</ul>").count());
        assert_eq!(html.matches("<ol>").count(), html.matches("</ol>").count());
    }
}

#[test]
fn mismatched_list_endings() {
    assert_eq!(
        "<ul><li>a</li></ul><span class=\"error\">MISSING \\end{itemize}</span>",
        &html_string(r"\begin{itemize}\item a\end{enumerate}")
    );
    assert_eq!(
        "<ul><li>a</li></ul><span class=\"error\">MISSING \\end{itemize}</span>",
        &html_string(r"\begin{itemize}\item a\end{description}")
    );
    assert_eq!(
        "<ol><li>a</li></ol><span class=\"error\">MISSING \\end{enumerate}</span>",
        &html_string(r"\begin{enumerate}\item a\end{itemize}")
    );
    assert_eq!(
        "<dl><dd>a</dd></dl><span class=\"error\">MISSING \\end{description}</span>",
        &html_string(r"\begin{description}\item a\end{itemize}")
    );
    assert_eq!(
        "<dl><dd>a</dd></dl><span class=\"error\">MISSING \\end{description}</span>b",
        &html_string(r"\begin{description}\item a\end{enumerate}b")
    );
    assert_eq!(
        "<ol></ol><span class=\"error\">MISSING \\end{enumerate}</span>",
        &html_string(r"\begin{enumerate}")
    );
}

#[test]
fn heading_alone_is_closed() {
    assert_eq!("<section><h2>a</h2></section>", &html_string(r"\section{a}"));
    assert_eq!(
        "<section><h2>foo</h2></section>",
        &html_string(r"\section{foo}")
    );
    assert_eq!(
        "<section><h2>a</h2><section><h3>b</h3></section></section>",
        &html_string(r"\section{a}\subsection{b}")
    );
    assert_eq!(
        "<section><h2>a</h2></section><section><h2>b</h2></section>",
        &html_string(r"\section{a}\section{b}")
    );
    assert_eq!(
        "<section><h2>a</h2>b</section>",
        &html_string(r"\section*{a}b")
    );
}

#[test]
fn comments_are_stripped_before_rendering() {
    assert_eq!("50% full", &html_string(&strip_comments("50\\% full")));
    assert_eq!("50%", &html_string(&strip_comments("50\\%% full")));
    assert_eq!("50%", &html_string("50\\%% full"));
    assert_eq!("a b", &html_string("a% comment\nb"));
}

#[test]
fn rendering_stops_at_the_full_depth() {
    let levels = MAX_DEPTH + 6;
    let deep = format!("{}x{}", "{".repeat(levels), "}".repeat(levels));
    assert_eq!(
        "<span class=\"error\">{{{{{x}}}}}</span>",
        &html_string(&deep)
    );
    let shallow = format!("{}x{}", "{".repeat(MAX_DEPTH), "}".repeat(MAX_DEPTH));
    assert_eq!("x", &html_string(&shallow));
    let far = "{".repeat(5000) + &"}".repeat(5000);
    assert!(html_string(&far).starts_with("<span class=\"error\">"));
}
