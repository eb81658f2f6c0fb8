use latex_snippet::escape::{find_next_quoting, fmt_as_html};
use latex_snippet::scan::{argument, find_paragraph, finish_paragraph, macro_name};
use latex_snippet::text::{to_chars, to_string};

#[test]
fn test_find_next_quoting() {
    assert_eq!(find_next_quoting(&to_chars("  ''  ")), Some((2, 4)));
}

#[test]
fn test_fmt_double_quotes() {
    let mut s: Vec<char> = Vec::new();
    fmt_as_html(&mut s, &to_chars("  ''  "));
    assert_eq!(&to_string(&s), "  ”  ");
    let mut s: Vec<char> = Vec::new();
    fmt_as_html(&mut s, &to_chars("  ``  "));
    assert_eq!(&to_string(&s), "  “  ");
}

#[test]
fn test_macro_name() {
    assert_eq!(to_string(macro_name(&to_chars(r"\emph{foo"))), r"\emph");
    assert_eq!(to_string(macro_name(&to_chars(r"\\ extra"))), r"\\");
    assert_eq!(to_string(macro_name(&to_chars(r"\% extra"))), r"\%");
}

#[test]
fn test_find_paragraph() {
    assert_eq!(Some(3), find_paragraph(&to_chars("\n\n\nHello world")));
    assert_eq!(Some(5), find_paragraph(&to_chars("\n\n\n\r\nHello world")));
}

#[test]
fn test_finish_paragraph() {
    assert_eq!(
        r"\begin{center}
contents
\end{center}

",
        to_string(finish_paragraph(&to_chars(
            r"\begin{center}
contents
\end{center}

"
        )))
    );
    assert_eq!(
        "\n\n\n",
        to_string(finish_paragraph(&to_chars("\n\n\nHello world")))
    );
    assert_eq!(
        "\n\n\n\r\n",
        to_string(finish_paragraph(&to_chars("\n\n\n\r\nHello world")))
    );
    assert_eq!(
        "\nFirst me\n\n\n\r\n",
        to_string(finish_paragraph(&to_chars(
            "\nFirst me\n\n\n\r\nHello world"
        )))
    );
}

#[test]
fn test_argument() {
    assert_eq!(to_string(argument(&to_chars(r"{foo"))), r"{");
    assert_eq!(to_string(argument(&to_chars(r"{foo}  "))), r"{foo}");
}
