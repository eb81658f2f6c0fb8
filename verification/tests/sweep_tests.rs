use latex_snippet::{
    check_latex, html_string, include_solutions, omit_guide, omit_handout, omit_solutions,
    only_handout, physics_macros, pull_sections_out, strip_comments, with_image_directory,
};

const PIECES: [&str; 64] = [
    "\\begin{itemize}",
    "\\end{itemize}",
    "\\begin{enumerate}",
    "\\end{enumerate}",
    "\\begin{description}",
    "\\end{description}",
    "\\item",
    "\\item[",
    "]",
    "[",
    "{",
    "}",
    "\\{",
    "\\}",
    "$",
    "$$",
    "%",
    "\\%",
    "\n",
    "\n\n",
    " \r\n \r\n",
    "\\\\",
    "&",
    "\\&",
    "~",
    "\\",
    " ",
    "text",
    "1",
    "\u{e9}",
    "\u{4eac}\u{2003}",
    "``",
    "''",
    "<a href=\"x\">",
    "/",
    "\\section",
    "\\subsection*",
    "\\subsubsection",
    "\\paragraph",
    "\\emph",
    "\\textbf",
    "\\bf",
    "\\it ",
    "\\centering ",
    "\\centering\\n",
    "\\begin{",
    "\\end{",
    "\\begin{figure}",
    "\\end{figure}",
    "\\begin{wrapfigure}{r}{0.5\\columnwidth}",
    "\\end{wrapfigure}",
    "\\begin{tabular}",
    "\\end{tabular}",
    "\\begin{solution}",
    "\\end{solution}",
    "\\begin{handout}",
    "\\end{handout}",
    "\\begin{align}",
    "\\end{align}",
    "\\includegraphics[width=3em]",
    "\\href",
    "\\textcolor{red}",
    "\\ket{",
    "\\myderiv{a}",
];

fn next(state: &mut u64) -> usize {
    *state = state
        .wrapping_mul(6364136223846793005)
        .wrapping_add(1442695040888963407);
    (*state >> 33) as usize
}

fn document(state: &mut u64, pieces: usize) -> String {
    let mut text = String::new();
    for _ in 0..pieces {
        text.push_str(PIECES[next(state) % PIECES.len()]);
    }
    text
}

#[test]
fn every_document_is_rendered() {
    let mut state: u64 = 1;
    let mut rendered = 0;
    for round in 0..300 {
        let text = document(&mut state, 1 + round % 40);
        rendered += html_string(&text).chars().count();
    }
    assert!(rendered > 0);
}

#[test]
fn every_document_is_transformed() {
    let mut state: u64 = 2;
    for round in 0..150 {
        let text = document(&mut state, 1 + round % 40);
        assert!(check_latex(&text).ends_with(&text));
        assert!(strip_comments(&text).chars().count() <= text.chars().count() + 1);
        assert!(omit_solutions(&text).len() <= text.len());
        assert!(omit_guide(&text).len() <= text.len());
        assert!(omit_handout(&text).len() <= text.len());
        assert!(only_handout(&text).len() <= text.len());
        assert!(include_solutions(&text).len() >= text.len());
        assert!(pull_sections_out(&text).len() >= text.len());
        assert!(!with_image_directory(&text, "d/").contains("\\includegraphics[width=3em]{"));
        let expanded = physics_macros(&text);
        assert!(text.contains("\\ket{") || text.contains("\\myderiv{") || expanded == text);
    }
}

#[test]
fn a_long_document_is_rendered() {
    let mut text = String::new();
    for i in 0..100 {
        text.push_str("\\section{Part ");
        text.push_str(&i.to_string());
        text.push_str("}\nSome text with $x < y$ and \\emph{stress}.\n\n");
        text.push_str("\\begin{itemize}\n\\item one\n\\item two\n\\end{itemize}\n\n");
    }
    let html = html_string(&text);
    assert_eq!(100, html.matches("<section><h2>").count());
    assert_eq!(100, html.matches("</section>").count());
    assert_eq!(200, html.matches("<li>").count());
}
