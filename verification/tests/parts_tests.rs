use latex_snippet::chars::{is_blank, trim_start};
use latex_snippet::escape::{fmt_error, fmt_errors, fmt_math_as_html, needs_quoting_at_start};
use latex_snippet::pattern::find_match;
use latex_snippet::scan::{
    earlier, end_env, env_name, find_class, find_paragraph, finish_item,
    finish_standalone_macro, first_event, macro_name, optional_argument, parse_title, Class,
    Event,
};
use latex_snippet::text::{find_str, replace_all, starts_with, to_chars, to_string};
use latex_snippet::validate::{annotate, good_environments};
use latex_snippet::width::{parse_width, percent, style_of_fraction, style_of_length};
use latex_snippet::{
    check_latex, html, html_string, html_paragraph, html_section, html_subsection, html_subsubsection,
    html_with_figures_and_solution, html_with_figures_omit_solution, html_omit_solution,
    html_with_solution, include_solutions, omit_guide, omit_solutions, only_handout,
    physics_macros, pull_sections_out, strip_comments, with_image_directory,
};

fn group(text: &str) -> Option<Vec<char>> {
    Some(to_chars(text))
}

#[test]
fn conversion_keeps_every_character() {
    let text = "a\u{e9}\u{4eac}\u{1f600}\n\\";
    assert_eq!(text, &to_string(&to_chars(text)));
    assert_eq!(5, to_chars("a\u{e9}\u{4eac}\u{1f600}\n").len());
}

#[test]
fn searching_and_replacing() {
    assert_eq!(Some(2), find_str(&to_chars("ababc"), "abc"));
    assert_eq!(None, find_str(&to_chars("abab"), "abc"));
    assert_eq!(Some(0), find_str(&to_chars("abab"), ""));
    assert!(starts_with(&to_chars("abc"), "ab"));
    assert!(!starts_with(&to_chars("a"), "ab"));
    assert_eq!("xbxb", &to_string(&replace_all(&to_chars("aabaab"), "aa", "x")));
    assert_eq!("xa", &to_string(&replace_all(&to_chars("aaa"), "aa", "x")));
    assert_eq!("aaa", &to_string(&replace_all(&to_chars("aaa"), "", "x")));
}

#[test]
fn white_space() {
    assert!(is_blank(&to_chars(" \t\r\n\u{a0}\u{2003}")));
    assert!(is_blank(&to_chars("")));
    assert!(!is_blank(&to_chars(" . ")));
    assert_eq!("a b ", &to_string(trim_start(&to_chars(" \n\u{a0}a b "))));
}

#[test]
fn stops_of_the_scanners() {
    assert_eq!(Some(1), find_class(&to_chars("a~"), Class::Markup));
    assert_eq!(Some(0), find_class(&to_chars("$a"), Class::Markup));
    assert_eq!(None, find_class(&to_chars("a}b"), Class::Markup));
    assert_eq!(Some(2), find_class(&to_chars("a\u{e9}*1"), Class::NameEnd));
    assert_eq!(Some(3), find_class(&to_chars("{a*}"), Class::EnvironmentEnd));
    assert_eq!(Some(2), find_class(&to_chars("{a}"), Class::EnvironmentEnd));
}

#[test]
fn names_of_macros() {
    assert_eq!("\\paragraph*", &to_string(macro_name(&to_chars("\\paragraph*{a}"))));
    assert_eq!("\\a*", &to_string(macro_name(&to_chars("\\a*b*"))));
    assert_eq!("\\a*", &to_string(macro_name(&to_chars("\\a**"))));
    assert_eq!("\\*", &to_string(macro_name(&to_chars("\\*x"))));
    assert_eq!("\\\u{e9}t\u{e9}", &to_string(macro_name(&to_chars("\\\u{e9}t\u{e9}1"))));
    assert_eq!("\\", &to_string(macro_name(&to_chars("\\"))));
    assert_eq!("\\ab", &to_string(macro_name(&to_chars("\\ab"))));
}

#[test]
fn arguments_in_brackets() {
    assert_eq!("[a{]}b]", &to_string(optional_argument(&to_chars("[a{]}b]c"))));
    assert_eq!("[", &to_string(optional_argument(&to_chars("[a{b"))));
    assert_eq!("", &to_string(optional_argument(&to_chars("{a}"))));
    assert_eq!("[", &to_string(optional_argument(&to_chars("[}]]"))));
    assert_eq!("[{}]", &to_string(optional_argument(&to_chars("[{}]]"))));
}

#[test]
fn titles_and_single_characters() {
    assert_eq!("{a{b}}", &to_string(parse_title(&to_chars("{a{b}}c"))));
    assert_eq!("7", &to_string(parse_title(&to_chars("78"))));
    assert_eq!("\u{e9}", &to_string(parse_title(&to_chars("\u{e9}x"))));
    assert_eq!("", &to_string(parse_title(&to_chars(""))));
}

#[test]
fn names_of_environments() {
    assert_eq!("{a ", &to_string(env_name(&to_chars("{a b}"))));
    assert_eq!("{a ", &to_string(env_name(&to_chars("{a b} c"))));
    assert_eq!("{align*}", &to_string(env_name(&to_chars("{align*}x"))));
    assert_eq!("{a1", &to_string(env_name(&to_chars("{a1}"))));
    assert_eq!("{enum\n", &to_string(env_name(&to_chars("{enum\nx"))));
    assert_eq!("{enum", &to_string(env_name(&to_chars("{enum"))));
    assert_eq!(
        "x\\end{a}",
        &to_string(end_env(&to_chars("{a}"), &to_chars("x\\end{a}y\\end{a}")))
    );
    assert_eq!("", &to_string(end_env(&to_chars("{a}"), &to_chars("x\\end{b}"))));
}

#[test]
fn space_after_a_macro() {
    assert_eq!(" b", &to_string(finish_standalone_macro(&to_chars("  b"))));
    assert_eq!("b", &to_string(finish_standalone_macro(&to_chars("b"))));
    assert_eq!("", &to_string(finish_standalone_macro(&to_chars(""))));
}

#[test]
fn blank_lines() {
    assert_eq!(None, find_paragraph(&to_chars("no line break")));
    assert_eq!(None, find_paragraph(&to_chars("one\nline break")));
    assert_eq!(Some(7), find_paragraph(&to_chars("a\n \t \n\nb")));
    assert_eq!(Some(4), find_paragraph(&to_chars("a\n\u{2003}\nb")));
}

#[test]
fn order_of_events() {
    assert!(earlier(Some(1), Some(2)));
    assert!(!earlier(Some(2), Some(2)));
    assert!(earlier(None, None));
    assert!(earlier(Some(5), None));
    assert!(!earlier(None, Some(0)));
    assert_eq!(Event::Boundary, first_event(Some(1), Some(2), Some(3)));
    assert_eq!(Event::Boundary, first_event(Some(1), None, None));
    assert_eq!(Event::Close, first_event(Some(2), Some(2), Some(3)));
    assert_eq!(Event::Close, first_event(None, Some(2), None));
    assert_eq!(Event::Open, first_event(Some(2), Some(2), Some(2)));
    assert_eq!(Event::Open, first_event(Some(9), Some(3), Some(3)));
    assert_eq!(Event::Open, first_event(None, None, Some(0)));
    assert_eq!(Event::Nothing, first_event(None, None, None));
}

#[test]
fn items_of_lists() {
    assert_eq!("a ", &to_string(finish_item(&to_chars("a \\item b"))));
    assert_eq!("a", &to_string(finish_item(&to_chars("a\\end{enumerate}"))));
    assert_eq!("", &to_string(finish_item(&to_chars("a b"))));
    assert_eq!(
        "a\\begin{itemize}\\item b\\end{itemize}",
        &to_string(finish_item(&to_chars(
            "a\\begin{itemize}\\item b\\end{itemize}\\item c"
        )))
    );
    assert_eq!(
        "",
        &to_string(finish_item(&to_chars("a\\begin{itemize}\\item b")))
    );
    assert_eq!("a\\end{center}", &to_string(finish_item(&to_chars("a\\end{center}\\item"))));
}

#[test]
fn matches_of_regular_expressions() {
    assert_eq!(Some((1, 4)), find_match("b+", &to_chars("abbbc")));
    assert_eq!(Some((2, 3)), find_match("\\s", &to_chars("\u{e9}\u{e9} b")));
    assert_eq!(None, find_match("b+", &to_chars("ac")));
    assert_eq!(None, find_match("(", &to_chars("(")));
    assert_eq!(Some((0, 0)), find_match("x*", &to_chars("abc")));
}

#[test]
fn what_must_be_escaped() {
    assert_eq!(Some(2), needs_quoting_at_start(&to_chars("``a")));
    assert_eq!(Some(2), needs_quoting_at_start(&to_chars("''")));
    assert_eq!(Some(1), needs_quoting_at_start(&to_chars("'`")));
    assert_eq!(Some(1), needs_quoting_at_start(&to_chars("/")));
    assert_eq!(None, needs_quoting_at_start(&to_chars("`a")));
    assert_eq!(None, needs_quoting_at_start(&to_chars("")));
}

#[test]
fn escaping_of_mathematics_and_errors() {
    let mut out: Vec<char> = Vec::new();
    fmt_math_as_html(&mut out, &to_chars("a''<b``amp#x7b;"));
    assert_eq!("a''&lt;b``\\{", &to_string(&out));
    let mut out: Vec<char> = to_chars("x");
    fmt_error(&mut out, &to_chars("a&amp#x7d;"));
    assert_eq!("x<span class=\"error\">a&amp;\\}</span>", &to_string(&out));
    let mut out: Vec<char> = Vec::new();
    let first = to_chars("<");
    let second = to_chars(">");
    fmt_errors(&mut out, &[&first, &second]);
    assert_eq!("<span class=\"error\">&lt;&gt;</span>", &to_string(&out));
}

#[test]
fn percentages() {
    let cases = [
        ("0", "5", "50"),
        ("0", "25", "25"),
        ("0", "333", "33.3"),
        ("1", "", "100"),
        ("0", "005", "0.5"),
        ("0", "0", "0"),
        ("12", "3456", "1234.56"),
        ("0", "50", "50"),
        ("0", "1250", "12.5"),
        ("00", "07", "7"),
    ];
    for (whole, places, expected) in cases {
        let mut out: Vec<char> = Vec::new();
        percent(&mut out, &to_chars(whole), &to_chars(places));
        assert_eq!(expected, &to_string(&out));
    }
}

#[test]
fn widths() {
    assert_eq!(" style=\"width:30em\"", &to_string(&parse_width(&to_chars("[width=30em]"))));
    assert_eq!(" style=\"width:4cm\"", &to_string(&parse_width(&to_chars("{4cm}"))));
    assert_eq!("", &to_string(&parse_width(&to_chars("{4furlongs}"))));
    assert_eq!("", &to_string(&parse_width(&to_chars("[width=\\columnwidth]"))));
    assert_eq!("", &to_string(&parse_width(&to_chars(""))));
    assert_eq!(
        " style=\"width:50%\"",
        &to_string(&parse_width(&to_chars("{0.5\\columnwidth}")))
    );
    assert_eq!(
        " style=\"width:75%\"",
        &to_string(&parse_width(&to_chars("[width=0.75\\linewidth]")))
    );
    assert_eq!(
        " style=\"width:200%\"",
        &to_string(&parse_width(&to_chars("{2\\textwidth}")))
    );
}

#[test]
fn styles_from_groups() {
    let groups = Some(vec![group("{3em}"), group("3"), group("em")]);
    assert_eq!(
        Some(to_chars(" style=\"width:3em\"")),
        style_of_length(&groups)
    );
    let groups = Some(vec![group("{3miles}"), group("3"), group("miles")]);
    assert_eq!(None, style_of_length(&groups));
    assert_eq!(None, style_of_length(&Some(vec![group("x"), None, group("em")])));
    assert_eq!(None, style_of_length(&Some(vec![group("x")])));
    assert_eq!(None, style_of_length(&None));
    let groups = Some(vec![group("x"), group("0"), group("125")]);
    assert_eq!(" style=\"width:12.5%\"", &to_string(&style_of_fraction(&groups)));
    let groups = Some(vec![group("x"), group("3"), None]);
    assert_eq!(" style=\"width:300%\"", &to_string(&style_of_fraction(&groups)));
    assert_eq!("", &to_string(&style_of_fraction(&Some(vec![group("x"), None, None]))));
    assert_eq!("", &to_string(&style_of_fraction(&None)));
}

#[test]
fn comments() {
    assert_eq!("a b", &strip_comments("a% one\nb% two"));
    assert_eq!("a\nb", &strip_comments("a\n% whole line\nb"));
    assert_eq!("", &strip_comments(""));
    assert_eq!("", &strip_comments("% only"));
    assert_eq!("a\n", &strip_comments("a\n"));
    assert_eq!("\\%", &strip_comments("\\%"));
    assert_eq!("a\n", &strip_comments("a\n% last"));
    assert_eq!("a", &strip_comments("a% last"));
    assert_eq!("b", &strip_comments("% first\nb"));
    assert_eq!("\\\\%", &strip_comments("\\\\%"));
}

#[test]
fn text_without_comments_is_kept() {
    for text in [
        "plain text",
        "two\nlines\n",
        "50\\% of \\emph{it}\n\n\\begin{itemize}\\item 10\\%\\end{itemize}",
        "\\\\\\%",
        "",
        "\n",
    ] {
        assert_eq!(text, &strip_comments(text));
    }
    assert_eq!("\\%", &strip_comments("\\percent_holder"));
}

#[test]
fn solutions() {
    assert_eq!("ab", &omit_solutions("a\\begin{solution}x\\end{solution}b"));
    assert_eq!(
        "a\\begin{quotation}\\paragraph*{Solution}x\\end{quotation}b",
        &include_solutions("a\\begin{solution}x\\end{solution}b")
    );
    assert_eq!("a", &omit_solutions("a\\begin{solution}x"));
    assert_eq!(
        "a\\begin{quotation}\\paragraph*{Solution}x\\end{quotation}",
        &include_solutions("a\\begin{solution}x")
    );
    assert_eq!(
        "abc",
        &omit_solutions("a\\begin{solution}x\\end{solution}b\\begin{solution}y\\end{solution}c")
    );
    assert_eq!("a\\end{solution}b", &omit_solutions("a\\end{solution}b"));
    assert_eq!("ab", &omit_guide("a\\begin{guide}x\\end{guide}b"));
    assert_eq!(
        "xy",
        &only_handout("a\\begin{handout}x\\end{handout}b\\begin{handout}y\\end{handout}c")
    );
    assert_eq!("x", &only_handout("a\\begin{handout}x"));
    assert_eq!(
        "xy",
        &only_handout("a\\begin{handout}x\\end{handout}b\\begin{handout}y")
    );
    assert_eq!("", &only_handout("abc"));
}

#[test]
fn image_directories() {
    assert_eq!(
        "<img src=\"images/foo\"/>",
        &with_image_directory("\\includegraphics{foo}", "images/")
    );
    assert_eq!(
        "a<img src=\"d/foo\"/>b",
        &with_image_directory("a\\includegraphics[width=3in]{foo}b", "d/")
    );
    assert_eq!(
        "a<span class=\"error\">\\includegraphics[</span>width",
        &with_image_directory("a\\includegraphics[width", "d/")
    );
    assert_eq!(
        "a<span class=\"error\">\\includegraphics[..]{</span>foo",
        &with_image_directory("a\\includegraphics[w]{foo", "d/")
    );
    assert_eq!(
        "a<span class=\"error\">\\includegraphics{</span>foo",
        &with_image_directory("a\\includegraphics{foo", "d/")
    );
    assert_eq!(
        "<img src=\"d/a\"/> <img src=\"d/b\"/>",
        &with_image_directory("\\includegraphics{a} \\includegraphics[w]{b}", "d/")
    );
    assert_eq!(
        "<img src=\"d/a\"/><img src=\"d/b\"/>",
        &with_image_directory("\\includegraphics{a}\\includegraphics[w]{b}", "d/")
    );
    assert_eq!(
        "<img src=\"d/b\"/><img src=\"d/a\"/>",
        &with_image_directory("\\includegraphics[w]{b}\\includegraphics{a}", "d/")
    );
}

#[test]
fn headings_leave_their_blocks() {
    assert_eq!(
        "\\begin{guide}a\\end{guide}\\section{T}\\begin{guide}b\\end{guide}",
        &pull_sections_out("\\begin{guide}a\\section{T}b\\end{guide}")
    );
    assert_eq!(
        "\\begin{handout}\\end{handout}\\subsubsection{T}\\begin{handout}\\end{handout}\\section{U}\\begin{handout}x\\end{handout}",
        &pull_sections_out("\\begin{handout}\\subsubsection{T}\\section{U}x\\end{handout}")
    );
    assert_eq!(
        "\\begin{handout}\\section{U}\\end{handout}",
        &pull_sections_out("\\begin{handout}\\section{U}\\end{handout}")
    );
    assert_eq!(
        "\\begin{solution}a\\end{solution}\\section{T}",
        &pull_sections_out("\\begin{solution}a\\end{solution}\\section{T}")
    );
    assert_eq!(
        "\\begin{solution}a\\section{T}",
        &pull_sections_out("\\begin{solution}a\\section{T}")
    );
}

#[test]
fn shorthands_of_physics() {
    assert_eq!("\\left|{a}\\right\\rangle ", &physics_macros("\\ket{a}"));
    assert_eq!("\\left\\langle {a}\\right|", &physics_macros("\\bra{a}"));
    assert_eq!(
        "\\left\\langle {\\left|{a}\\right\\rangle }\\right|",
        &physics_macros("\\bra{\\ket{a}}")
    );
    assert_eq!(
        "{\\mkern3mu\\mathchar'26\\mkern-12mu d} Q",
        &physics_macros("\\dbar Q")
    );
    assert_eq!("\\dbar", &physics_macros("\\dbar"));
    assert_eq!(
        "\\left(\\frac{\\partial {S}}{\\partial {T}}\\right)_{V}",
        &physics_macros("\\myderiv{S}{T}{V}")
    );
    assert_eq!(
        "\\left(\\frac{\\partial {\\left|{a}\\right\\rangle }}{\\partial {T}}\\right)_V",
        &physics_macros("\\thermoderivative{\\ket{a}}{T}V")
    );
    assert_eq!("\\left|{\\right\\rangle a", &physics_macros("\\ket{a"));
    assert_eq!("plain", &physics_macros("plain"));
}

#[test]
fn validator_accepts_what_is_supported() {
    let text = "\\section{A}\n\\begin{enumerate}\\item \\emph{x} 50\\% \\& $\\frac{1}{2}$\\end{enumerate}";
    assert_eq!(text, &check_latex(text));
    assert_eq!("", &check_latex(""));
}

#[test]
fn accepted_environments_are_rendered() {
    for name in good_environments() {
        let body = if name == "enumerate" || name == "description" {
            "\\item body"
        } else {
            "body"
        };
        let text = format!("\\begin{{{}}}{}\\end{{{}}}", name, body, name);
        assert_eq!(text, check_latex(&text));
        assert!(!html_string(&text).contains("class=\"error\""));
    }
}

#[test]
fn what_is_rendered_is_not_reported() {
    let text = "\\begin{itemize}\\item \\href{a}{b} \\underline{c} \\textcolor{red}{d}\\end{itemize}\\begin{tabular}{l}\\hline\\end{tabular}\\begin{wrapfigure}\\end{wrapfigure}\\ldots\\url{x}\\bf";
    assert_eq!(text, &check_latex(text));
}

#[test]
fn names_are_reported_once() {
    assert_eq!(
        "\\warning{possibly bad environment: odd}\\\\\n\\warning{possibly bad macro: \\textbackslash{}zeta}\\\\\n\\zeta\\begin{odd}\\zeta\\begin{odd}\\zeta",
        &check_latex("\\zeta\\begin{odd}\\zeta\\begin{odd}\\zeta")
    );
}

#[test]
fn validator_reports_errors_before_warnings() {
    assert_eq!(
        "\\error{bad environment: buggy}\\\\\n\\error{bad macro: \\textbackslash{}newcommand}\\\\\n\\error{bad macro: \\textbackslash{}def}\\\\\n\\warning{possibly bad environment: weird}\\\\\n\\warning{possibly bad macro: \\textbackslash{}zeta}\\\\\n\\warning{possibly bad macro: \\textbackslash{}alpha}\\\\\n\\zeta\\def\\begin{weird}\\alpha\\begin{buggy}\\zeta\\newcommand",
        &check_latex("\\zeta\\def\\begin{weird}\\alpha\\begin{buggy}\\zeta\\newcommand")
    );
}

#[test]
fn validator_keeps_the_text() {
    for text in [
        "",
        "plain",
        "\\begin{buggy}\\foo",
        "\\usepackage{x}\n\\begin{a}\\begin{b}\\begin{a}",
        "\\\u{e9}\u{4eac} \\begin{\u{e9}}",
    ] {
        assert!(check_latex(text).ends_with(text));
    }
}

#[test]
fn diagnostics_from_groups() {
    let environments = vec![group("buggy"), None, group("odd"), group("buggy"), group("figure")];
    let macros = vec![group("foo"), group("def"), group("foo"), group("emph"), None];
    assert_eq!(
        "\\error{bad environment: buggy}\\\\\n\\error{bad macro: \\textbackslash{}def}\\\\\n\\warning{possibly bad environment: odd}\\\\\n\\warning{possibly bad macro: \\textbackslash{}foo}\\\\\nx",
        &to_string(&annotate(&to_chars("x"), &environments, &macros))
    );
    assert_eq!("x", &to_string(&annotate(&to_chars("x"), &vec![], &vec![])));
}

#[test]
fn rendering_into_a_string() {
    let mut out = String::from(">");
    html(&mut out, "a\\section{b}c");
    assert_eq!(">a<section><h2>b</h2>c</section>", out);
    let mut out = String::from(">");
    html_section(&mut out, "a\\section{b}\\subsection{c}d");
    assert_eq!(
        ">a<span class=\"error\">\\section</span>b<section><h3>c</h3>d</section>",
        out
    );
    let mut out = String::new();
    html_subsection(&mut out, "\\subsubsection{c}d % no comment\n");
    assert_eq!("<section><h4>c</h4>d % no comment\n</section>", out);
    let mut out = String::new();
    html_subsubsection(&mut out, "a\n\nb");
    assert_eq!("<p>a\n\n</p><p>b</p>", out);
    let mut out = String::new();
    html_paragraph(&mut out, "a\n\nb \\{x\\}");
    assert_eq!("a\n\nb \\{x\\}", out);
}

#[test]
fn conversions_in_one_step() {
    assert_eq!(
        "\\(\\left|{a}\\right\\rangle \\)<blockquote class=\"solution\">x</blockquote>",
        &html_with_solution("$\\ket{a}$\\begin{solution}x\\end{solution}")
    );
    assert_eq!(
        "\\(\\left|{a}\\right\\rangle \\)",
        &html_omit_solution("$\\ket{a}$\\begin{solution}x\\end{solution}")
    );
    assert_eq!(
        "<blockquote class=\"solution\">&lt;img src=&quot;d&#x2f;f&quot;&#x2f;&gt;</blockquote>",
        &html_with_figures_and_solution("\\begin{solution}\\includegraphics{f}\\end{solution}", "d/")
    );
    assert_eq!(
        "&lt;img src=&quot;d&#x2f;f&quot;&#x2f;&gt;",
        &html_with_figures_omit_solution(
            "\\includegraphics{f}\\begin{solution}x\\end{solution}",
            "d/"
        )
    );
}
