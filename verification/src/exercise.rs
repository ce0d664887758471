//! The exercise page: the file it carries, and the lines that are written to
//! disk.
//!
//! The page shows one source file: its name in a heading, its text in a
//! preformatted block. The text is written line by line, each line closed by a
//! newline.

use crate::dom::{
    first_child, first_child_of, first_match, inner_markup, parsed_document, parsed_selector,
    select_first, Child,
};
use crate::text::{chars_of, texts};
use vstd::prelude::*;

verus! {

/// The selector for the heading that holds the file's name.
pub const NAME_SELECTOR: &'static str = "h4[id=\"fileid1\"]";

/// The selector for the block that holds the file's text.
pub const BODY_SELECTOR: &'static str = "pre[id=\"codefileid1\"]";

/// Why no file could be read from an exercise page.
#[derive(Clone, Copy, Debug, PartialEq, Eq, Structural)]
pub enum ExerciseError {
    /// One of the two selectors was refused.
    Selector,
    /// The page has no heading with the file's name.
    MissingName,
    /// The page has no block with the file's text, or the block does not
    /// start with text.
    MissingBody,
}

/// The file that an exercise page carries.
#[derive(Clone, Debug, PartialEq, Eq)]
pub struct Artifact {
    /// The file's name: the markup inside the heading.
    pub name: String,
    /// The file's text: the text node that the block starts with.
    pub body: String,
}

/// The mathematical content of an [`Artifact`].
pub struct ArtifactView {
    pub name: Seq<char>,
    pub body: Seq<char>,
}

impl View for Artifact {
    type V = ArtifactView;

    open spec fn view(&self) -> ArtifactView {
        ArtifactView { name: self.name@, body: self.body@ }
    }
}

/// The file on the exercise page `page`.
///
/// The name is looked for first: its selector, then the first heading that
/// matches. The text follows in the same way, and must be the first child of
/// its block.
pub open spec fn page_artifact(page: Seq<char>) -> Result<ArtifactView, ExerciseError> {
    let doc = parsed_document(page);
    match parsed_selector(NAME_SELECTOR@) {
        None => Err(ExerciseError::Selector),
        Some(name_selector) => match first_match(doc, name_selector) {
            None => Err(ExerciseError::MissingName),
            Some(heading) => match parsed_selector(BODY_SELECTOR@) {
                None => Err(ExerciseError::Selector),
                Some(body_selector) => match first_match(doc, body_selector) {
                    None => Err(ExerciseError::MissingBody),
                    Some(block) => match first_child_of(block) {
                        Child::Text(body) => Ok(
                            ArtifactView { name: inner_markup(heading), body: body@ },
                        ),
                        _ => Err(ExerciseError::MissingBody),
                    },
                },
            },
        },
    }
}

/// Whether a result of the exercise rules holds what `expected` says.
pub open spec fn artifact_agrees(
    found: Result<Artifact, ExerciseError>,
    expected: Result<ArtifactView, ExerciseError>,
) -> bool {
    match found {
        Ok(artifact) => expected == Ok::<ArtifactView, ExerciseError>(artifact@),
        Err(e) => expected == Err::<ArtifactView, ExerciseError>(e),
    }
}

/// The number of characters before the first newline of `text`, or the length
/// of `text` where it has none.
pub open spec fn line_len(text: Seq<char>) -> nat
    decreases text.len(),
{
    if text.len() == 0 || text[0] == '\n' {
        0
    } else {
        1 + line_len(text.skip(1))
    }
}

/// The lines of `text`: the runs of characters between its newlines. A
/// newline closes a line, so a text that ends in one has no empty line after
/// it, and the empty text has no lines.
pub open spec fn lines_of(text: Seq<char>) -> Seq<Seq<char>>
    decreases text.len(),
{
    let n: int = line_len(text) as int;
    if text.len() == 0 {
        Seq::empty()
    } else if n >= text.len() {
        seq![text]
    } else {
        seq![text.take(n)] + lines_of(text.skip(n + 1))
    }
}

/// What is written for a sequence of lines: each line followed by a newline.
pub open spec fn terminated(lines: Seq<Seq<char>>) -> Seq<char>
    decreases lines.len(),
{
    if lines.len() == 0 {
        Seq::empty()
    } else {
        lines[0] + seq!['\n'] + terminated(lines.skip(1))
    }
}

/// `text` closed by a newline, unless it is empty or already ends in one.
pub open spec fn closed_text(text: Seq<char>) -> Seq<char> {
    if text.len() == 0 || text.last() == '\n' {
        text
    } else {
        text.push('\n')
    }
}

/// Where the first newline of a text stands: `m` is the length of its first
/// line if no newline comes before `m` and one stands at `m`, or the text ends
/// there.
pub proof fn line_len_is(text: Seq<char>, m: int)
    requires
        0 <= m <= text.len(),
        forall|k: int| 0 <= k < m ==> text[k] != '\n',
        m == text.len() || text[m] == '\n',
    ensures
        line_len(text) == m,
    decreases m,
{
    if m > 0 {
        let rest = text.skip(1);
        assert forall|k: int| 0 <= k < m - 1 implies rest[k] != '\n' by {
            assert(rest[k] == text[k + 1]);
        }
        line_len_is(rest, m - 1);
    }
}

/// The first line of a text ends at its first newline: no newline stands
/// before `line_len(text)`, and one stands there unless the text ends.
pub proof fn line_len_bounds(text: Seq<char>)
    ensures
        line_len(text) <= text.len(),
        forall|k: int| 0 <= k < line_len(text) ==> text[k] != '\n',
        line_len(text) < text.len() ==> text[line_len(text) as int] == '\n',
    decreases text.len(),
{
    if !(text.len() == 0 || text[0] == '\n') {
        let rest = text.skip(1);
        line_len_bounds(rest);
        assert forall|k: int| 0 <= k < line_len(text) implies text[k] != '\n' by {
            if k > 0 {
                assert(rest[k - 1] == text[k]);
            }
        }
        if line_len(text) < text.len() {
            assert(rest[line_len(rest) as int] == text[line_len(text) as int]);
        }
    }
}

/// Writing the lines of a text, each closed by a newline, gives the text back,
/// with a newline added at its end where it lacked one.
pub proof fn lines_rebuild_text(text: Seq<char>)
    ensures
        terminated(lines_of(text)) == closed_text(text),
    decreases text.len(),
{
    let n: int = line_len(text) as int;
    line_len_bounds(text);
    if text.len() == 0 {
    } else if n >= text.len() {
        let lines = seq![text];
        assert(lines.skip(1).len() == 0);
        assert(terminated(lines.skip(1)) == Seq::<char>::empty());
        assert(terminated(lines) == text + seq!['\n'] + Seq::<char>::empty());
        assert(text + seq!['\n'] + Seq::<char>::empty() == text.push('\n'));
        assert(text[text.len() - 1] != '\n');
    } else {
        let rest = text.skip(n + 1);
        let first = text.take(n);
        let lines = seq![first] + lines_of(rest);
        lines_rebuild_text(rest);
        assert(lines[0] == first);
        assert(lines.skip(1) == lines_of(rest));
        assert(terminated(lines) == first + seq!['\n'] + closed_text(rest));
        assert(first + seq!['\n'] + rest == text);
        if rest.len() == 0 {
            assert(first + seq!['\n'] + rest == first + seq!['\n']);
            assert(text.last() == '\n');
        } else {
            assert(text.last() == rest.last());
            if rest.last() != '\n' {
                assert(first + seq!['\n'] + rest.push('\n') == text.push('\n'));
            }
        }
    }
}

/// No line of a text holds a newline.
pub proof fn lines_hold_no_newline(text: Seq<char>, i: int, k: int)
    requires
        0 <= i < lines_of(text).len(),
        0 <= k < lines_of(text)[i].len(),
    ensures
        lines_of(text)[i][k] != '\n',
    decreases text.len(),
{
    let n: int = line_len(text) as int;
    line_len_bounds(text);
    if text.len() == 0 {
    } else if n >= text.len() {
    } else if i > 0 {
        let rest = text.skip(n + 1);
        assert(lines_of(text)[i] == lines_of(rest)[i - 1]);
        lines_hold_no_newline(rest, i - 1, k);
    }
}

/// Splits the text of a file into the lines that are written to disk.
pub fn body_lines(body: &str) -> (lines: Vec<String>)
    ensures
        texts(lines@) == lines_of(body@),
{
    let chars = chars_of(body);
    let n: usize = chars.len();
    let mut lines: Vec<String> = Vec::new();
    let mut start: usize = 0;
    let mut i: usize = 0;
    proof {
        assert(chars@.skip(0) == chars@);
        assert(texts(lines@) + lines_of(chars@) == lines_of(chars@));
    }
    while i < n
        invariant
            n == chars.len(),
            start <= i <= n,
            chars@ == body@,
            forall|k: int| start <= k < i ==> chars@[k] != '\n',
            texts(lines@) + lines_of(chars@.skip(start as int)) == lines_of(chars@),
        decreases n - i,
    {
        if chars[i] == '\n' {
            let line = body.substring_char(start, i).to_owned();
            let ghost rest = chars@.skip(start as int);
            let ghost before = lines@;
            proof {
                let m: int = i - start;
                assert forall|k: int| 0 <= k < m implies rest[k] != '\n' by {
                    assert(rest[k] == chars@[start + k]);
                }
                assert(rest[m] == chars@[i as int]);
                line_len_is(rest, m);
                assert(rest.take(m) == line@);
                assert(rest.skip(m + 1) == chars@.skip(i + 1));
                assert(lines_of(rest) == seq![line@] + lines_of(chars@.skip(i + 1)));
            }
            lines.push(line);
            proof {
                assert(texts(lines@) == texts(before).push(line@));
                assert(texts(before).push(line@) + lines_of(chars@.skip(i + 1)) == texts(before) + (
                seq![line@] + lines_of(chars@.skip(i + 1))));
            }
            start = i + 1;
        }
        i = i + 1;
    }
    let ghost rest = chars@.skip(start as int);
    if start < n {
        let line = body.substring_char(start, n).to_owned();
        let ghost before = lines@;
        proof {
            assert forall|k: int| 0 <= k < rest.len() implies rest[k] != '\n' by {
                assert(rest[k] == chars@[start + k]);
            }
            line_len_is(rest, rest.len() as int);
            assert(rest == line@);
            assert(lines_of(rest) == seq![line@]);
        }
        lines.push(line);
        proof {
            assert(texts(lines@) == texts(before) + seq![line@]);
        }
    } else {
        proof {
            assert(rest.len() == 0);
            assert(texts(lines@) + lines_of(rest) == texts(lines@));
        }
    }
    lines
}

/// Reads the file that an exercise page carries from the page's text.
///
/// Fails where a selector is refused, where the page lacks the heading or the
/// block, and where the block does not start with text.
pub fn exercise_artifact(page: &str) -> (found: Result<Artifact, ExerciseError>)
    ensures
        artifact_agrees(found, page_artifact(page@)),
{
    let doc = scraper::Html::parse_document(page);
    let name_selector = match scraper::Selector::parse(NAME_SELECTOR) {
        Ok(selector) => selector,
        Err(_) => {
            return Err(ExerciseError::Selector);
        },
    };
    let heading = match select_first(&doc, &name_selector) {
        Some(element) => element,
        None => {
            return Err(ExerciseError::MissingName);
        },
    };
    let name = heading.inner_html();
    let body_selector = match scraper::Selector::parse(BODY_SELECTOR) {
        Ok(selector) => selector,
        Err(_) => {
            return Err(ExerciseError::Selector);
        },
    };
    let block = match select_first(&doc, &body_selector) {
        Some(element) => element,
        None => {
            return Err(ExerciseError::MissingBody);
        },
    };
    match first_child(block) {
        Child::Text(body) => Ok(Artifact { name, body }),
        _ => Err(ExerciseError::MissingBody),
    }
}

} // verus!
