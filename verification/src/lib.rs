//! Conversion of a constrained dialect of LaTeX markup into HTML.
//!
//! Malformed markup never stops a conversion: it is shown in the output as
//! an error marker at the place where it stands. Text is handled as a
//! sequence of characters; each function of this module takes and gives
//! strings, and says in its contract which sequence of characters comes
//! out, in terms of the models of the modules below.

use vstd::prelude::*;

pub mod chars;
pub mod escape;
pub mod laws;
pub mod markup;
pub mod model;
pub mod pattern;
pub mod physics;
pub mod render;
pub mod scan;
pub mod text;
pub mod transform;
pub mod validate;
pub mod width;

verus! {

/// How many levels deep markup is followed: arguments within arguments,
/// environments within environments. What lies deeper is shown as an error.
pub const MAX_DEPTH: usize = render::MAX_DEPTH;

/// A document as HTML, rendered to the full depth.
pub open spec fn spec_html_string(latex: Seq<char>) -> Seq<char> {
    model::spec_html(latex, MAX_DEPTH as nat)
}

/// The shorthands of physics notation written out, to the full depth.
pub open spec fn spec_physics_macros(latex: Seq<char>) -> Seq<char> {
    physics::spec_physics_macros(latex, MAX_DEPTH as nat)
}

/// Appends the characters to `out`.
fn append(out: &mut String, chars: &[char])
    ensures
        final(out)@ == old(out)@ + chars@,
{
    let mut i: usize = 0;
    while i < chars.len()
        invariant
            i <= chars.len(),
            out@ == old(out)@ + chars@.take(i as int),
        decreases chars.len() - i,
    {
        out.push(chars[i]);
        i += 1;
    }
}

/// Cuts out the comments of `latex`. A text in which every `%` is escaped,
/// and which does not hold the word that stands for `\%` meanwhile, is
/// given back as it is.
pub fn strip_comments(latex: &str) -> (r: String)
    ensures
        r@ == transform::spec_strip_comments(latex@),
        laws::every_percent_escaped(latex@) && laws::absent(latex@, transform::PERCENT_HOLDER@)
            ==> r@ == latex@,
{
    proof {
        if laws::every_percent_escaped(latex@) && laws::absent(
            latex@,
            transform::PERCENT_HOLDER@,
        ) {
            laws::law_strip_comments_keeps_text_without_comments(latex@);
        }
    }
    let text = text::to_chars(latex);
    text::to_string(transform::strip_comments(text.as_slice()).as_slice())
}

/// Converts `latex` into HTML.
pub fn html_string(latex: &str) -> (r: String)
    ensures
        r@ == spec_html_string(latex@),
{
    let text = text::to_chars(latex);
    let mut out: Vec<char> = Vec::new();
    render::html(&mut out, text.as_slice(), MAX_DEPTH);
    text::to_string(out.as_slice())
}

/// Converts `latex` into HTML and appends it to `out`.
pub fn html(out: &mut String, latex: &str)
    ensures
        final(out)@ == old(out)@ + spec_html_string(latex@),
{
    let text = text::to_chars(latex);
    let mut buffer: Vec<char> = Vec::new();
    render::html(&mut buffer, text.as_slice(), MAX_DEPTH);
    append(out, buffer.as_slice());
}

/// Converts `latex`, a text below the level of sections, into HTML and
/// appends it to `out`.
pub fn html_section(out: &mut String, latex: &str)
    ensures
        final(out)@ == old(out)@ + model::spec_html_section(latex@, MAX_DEPTH as nat),
{
    let text = text::to_chars(latex);
    let mut buffer: Vec<char> = Vec::new();
    render::html_section(&mut buffer, text.as_slice(), MAX_DEPTH);
    append(out, buffer.as_slice());
}

/// Converts `latex`, a text below the level of subsections, into HTML and
/// appends it to `out`.
pub fn html_subsection(out: &mut String, latex: &str)
    ensures
        final(out)@ == old(out)@ + model::spec_html_subsection(latex@, MAX_DEPTH as nat),
{
    let text = text::to_chars(latex);
    let mut buffer: Vec<char> = Vec::new();
    render::html_subsection(&mut buffer, text.as_slice(), MAX_DEPTH);
    append(out, buffer.as_slice());
}

/// Converts `latex`, a text without headings, into HTML and appends it to
/// `out`.
pub fn html_subsubsection(out: &mut String, latex: &str)
    ensures
        final(out)@ == old(out)@ + model::spec_html_subsubsection(latex@, MAX_DEPTH as nat),
{
    let text = text::to_chars(latex);
    let mut buffer: Vec<char> = Vec::new();
    render::html_subsubsection(&mut buffer, text.as_slice(), MAX_DEPTH);
    append(out, buffer.as_slice());
}

/// Converts `latex`, a single paragraph, into HTML and appends it to `out`.
pub fn html_paragraph(out: &mut String, latex: &str)
    ensures
        final(out)@ == old(out)@ + model::spec_html_paragraph(latex@, MAX_DEPTH as nat),
{
    let text = text::to_chars(latex);
    let mut buffer: Vec<char> = Vec::new();
    render::html_paragraph(&mut buffer, text.as_slice(), MAX_DEPTH);
    append(out, buffer.as_slice());
}

/// Writes out the shorthands of physics notation in `latex`.
pub fn physics_macros(latex: &str) -> (r: String)
    ensures
        r@ == spec_physics_macros(latex@),
{
    let text = text::to_chars(latex);
    text::to_string(physics::physics_macros(text.as_slice(), MAX_DEPTH).as_slice())
}

/// Lifts the headings out of the solutions, guides and handouts of `latex`.
pub fn pull_sections_out(latex: &str) -> (r: String)
    ensures
        r@ == transform::spec_pull_sections_out(latex@),
{
    let text = text::to_chars(latex);
    text::to_string(transform::pull_sections_out(text.as_slice()).as_slice())
}

/// Checks `latex` against what the renderer supports: the diagnostics,
/// then `latex` itself, unchanged.
pub fn check_latex(latex: &str) -> (r: String)
    ensures
        r@ == validate::spec_check_latex(latex@),
        r@.len() >= latex@.len(),
        r@.subrange(r@.len() - latex@.len(), r@.len() as int) == latex@,
{
    let text = text::to_chars(latex);
    text::to_string(validate::check_latex(text.as_slice()).as_slice())
}

/// Turns each solution of `latex` into a quotation under a heading.
pub fn include_solutions(latex: &str) -> (r: String)
    ensures
        r@ == transform::spec_include_solutions(latex@),
{
    let text = text::to_chars(latex);
    text::to_string(transform::include_solutions(text.as_slice()).as_slice())
}

/// Cuts the solutions out of `latex`.
pub fn omit_solutions(latex: &str) -> (r: String)
    ensures
        r@ == transform::spec_omit_solutions(latex@),
{
    let text = text::to_chars(latex);
    text::to_string(transform::omit_solutions(text.as_slice()).as_slice())
}

/// Cuts the guides out of `latex`.
pub fn omit_guide(latex: &str) -> (r: String)
    ensures
        r@ == transform::spec_omit_guide(latex@),
{
    let text = text::to_chars(latex);
    text::to_string(transform::omit_guide(text.as_slice()).as_slice())
}

/// Cuts the handouts out of `latex`.
pub fn omit_handout(latex: &str) -> (r: String)
    ensures
        r@ == transform::spec_omit_handout(latex@),
{
    let text = text::to_chars(latex);
    text::to_string(transform::omit_handout(text.as_slice()).as_slice())
}

/// Keeps of `latex` only what stands inside its handouts.
pub fn only_handout(latex: &str) -> (r: String)
    ensures
        r@ == transform::spec_only_handout(latex@),
{
    let text = text::to_chars(latex);
    text::to_string(transform::only_handout(text.as_slice()).as_slice())
}

/// Turns each `\includegraphics` of `latex` into an image element whose
/// source lies in the directory `img_dir`.
pub fn with_image_directory(latex: &str, img_dir: &str) -> (r: String)
    ensures
        r@ == transform::spec_with_image_directory(latex@, img_dir@),
{
    let text = text::to_chars(latex);
    let dir = text::to_chars(img_dir);
    text::to_string(
        transform::with_image_directory(text.as_slice(), dir.as_slice()).as_slice(),
    )
}

/// Converts `latex` into HTML, its physics shorthands written out and its
/// solutions shown.
pub fn html_with_solution(latex: &str) -> (r: String)
    ensures
        r@ == spec_html_string(spec_physics_macros(latex@)),
{
    html_string(physics_macros(latex).as_str())
}

/// Converts `latex` into HTML, its physics shorthands written out and its
/// solutions left out.
pub fn html_omit_solution(latex: &str) -> (r: String)
    ensures
        r@ == spec_html_string(transform::spec_omit_solutions(spec_physics_macros(latex@))),
{
    html_string(omit_solutions(physics_macros(latex).as_str()).as_str())
}

/// Converts `latex` into HTML, with its figures taken from
/// `figure_directory` and its solutions shown.
pub fn html_with_figures_and_solution(latex: &str, figure_directory: &str) -> (r: String)
    ensures
        r@ == spec_html_string(
            transform::spec_with_image_directory(spec_physics_macros(latex@), figure_directory@),
        ),
{
    html_string(with_image_directory(physics_macros(latex).as_str(), figure_directory).as_str())
}

/// Converts `latex` into HTML, with its figures taken from
/// `figure_directory` and its solutions left out.
pub fn html_with_figures_omit_solution(latex: &str, figure_directory: &str) -> (r: String)
    ensures
        r@ == spec_html_string(
            transform::spec_omit_solutions(
                transform::spec_with_image_directory(
                    spec_physics_macros(latex@),
                    figure_directory@,
                ),
            ),
        ),
{
    html_string(
        omit_solutions(
            with_image_directory(physics_macros(latex).as_str(), figure_directory).as_str(),
        ).as_str(),
    )
}

} // verus!
