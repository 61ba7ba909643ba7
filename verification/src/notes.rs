//! The two note kinds the ledgers store: plain bank notes and review notes
//! that may carry verbatim source excerpts.
//!
//! A review note renders as its text; when it has excerpts attached they
//! follow, joined and fenced by a fixed dashed separator line. An excerpt
//! is a run of consecutive source lines, each prefixed with its 1-based
//! line number right-aligned to four characters and `": "`.

use vstd::prelude::*;

use crate::ledger::Note;
use crate::lines::{join_strings, join_with};
use crate::textfmt::{dec_rep, usize_to_string};

verus! {

/// The fence around and between a note's excerpts.
pub open spec fn note_sep() -> Seq<char> {
    "\n--------------------------------------------------\n"@
}

/// The fence, for writers.
pub fn note_separator() -> (r: &'static str)
    ensures
        r@ == note_sep(),
{
    "\n--------------------------------------------------\n"
}

/// A plain bank note: nothing but its text.
#[derive(Debug, Clone)]
pub struct TaskNode {
    pub text: String,
}

impl Note for TaskNode {
    open spec fn text_spec(&self) -> Seq<char> {
        self.text@
    }

    fn text(&self) -> (r: String) {
        self.text.clone()
    }

    fn from_text(text: String) -> (r: Self) {
        TaskNode { text }
    }
}

/// A decimal rendering left-padded with blanks to at least four
/// characters, the way excerpt line numbers are written.
pub open spec fn pad4(d: Seq<char>) -> Seq<char> {
    if d.len() == 1 {
        seq![' ', ' ', ' '] + d
    } else if d.len() == 2 {
        seq![' ', ' '] + d
    } else if d.len() == 3 {
        seq![' '] + d
    } else {
        d
    }
}

/// One excerpt line: the 1-based number of source line `i` (0-based),
/// padded, then `": "`, then the raw line.
pub open spec fn excerpt_line(i: nat, line: Seq<char>) -> Seq<char> {
    pad4(dec_rep(i + 1)) + ": "@ + line
}

/// The excerpt for 1-based inclusive range `first..=second` over `lines`:
/// the numbered lines at 0-based positions `first-1` up to (excluding)
/// `min(second, lines.len())`, joined with newlines. A range past the end
/// of the file simply stops there; a range of zero lines is empty text.
pub open spec fn excerpt_text(lines: Seq<Seq<char>>, first: int, second: int) -> Seq<char> {
    let lo = first - 1;
    let hi = if second < lines.len() {
        second
    } else {
        lines.len() as int
    };
    let count = if hi <= lo {
        0
    } else {
        (hi - lo) as nat
    };
    join_with(Seq::new(count, |m: int| excerpt_line((lo + m) as nat, lines[lo + m])), "\n"@)
}

/// Renders the 1-based line number of 0-based line `i`, padded to at least
/// four characters.
fn render_line_number(i: usize) -> (r: String)
    requires
        i < usize::MAX,
    ensures
        r@ == pad4(dec_rep(i as nat + 1)),
{
    proof {
        reveal_strlit("   ");
        reveal_strlit("  ");
        reveal_strlit(" ");
        reveal_strlit("");
    }
    let num = usize_to_string(i + 1);
    let n = num.as_str().unicode_len();
    let pad = if n == 1 {
        "   "
    } else if n == 2 {
        "  "
    } else if n == 3 {
        " "
    } else {
        ""
    };
    let mut r = pad.to_owned();
    r.append(num.as_str());
    proof {
        crate::textfmt::lemma_dec_rep_digits(i as nat + 1);
        assert(r@ =~= pad4(dec_rep(i as nat + 1)));
    }
    r
}

/// Extracts the excerpt for 1-based inclusive range `first..=second` from
/// the lines of a source file.
pub fn extract_excerpt(lines: &Vec<String>, first: usize, second: usize) -> (r: String)
    requires
        first >= 1,
        second as int + 1 >= first as int,
    ensures
        r@ == excerpt_text(lines.deep_view(), first as int, second as int),
{
    let lo = first - 1;
    let hi = if second < lines.len() {
        second
    } else {
        lines.len()
    };
    let mut parts: Vec<String> = Vec::new();
    let mut i = lo;
    proof {
        assert(parts.deep_view() =~~= Seq::<Seq<char>>::empty());
    }
    while i < hi
        invariant
            lo <= i,
            hi <= lines@.len(),
            i <= hi || i == lo,
            lo == first - 1,
            hi == (if second < lines@.len() {
                second as int
            } else {
                lines@.len() as int
            }),
            parts.deep_view() =~~= Seq::new(
                (if i <= lo {
                    0
                } else {
                    (i - lo) as nat
                }),
                |m: int| excerpt_line((lo + m) as nat, lines.deep_view()[lo + m]),
            ),
        decreases hi - i,
    {
        let mut ln = render_line_number(i);
        ln.append(": ");
        ln.append(lines[i].as_str());
        proof {
            assert(lines.deep_view()[i as int] == lines@[i as int]@);
            assert(ln@ =~= excerpt_line(i as nat, lines.deep_view()[i as int]));
            assert(parts.deep_view().push(ln@) =~~= Seq::new(
                (i + 1 - lo) as nat,
                |m: int| excerpt_line((lo + m) as nat, lines.deep_view()[lo + m]),
            ));
        }
        parts.push(ln);
        i = i + 1;
    }
    let r = join_strings(&parts, "\n");
    proof {
        let lns = lines.deep_view();
        let hi_s = if (second as int) < lns.len() {
            second as int
        } else {
            lns.len() as int
        };
        let count = if hi_s <= lo as int {
            0
        } else {
            (hi_s - lo as int) as nat
        };
        assert(parts.deep_view() =~~= Seq::new(
            count,
            |m: int| excerpt_line((lo + m) as nat, lns[lo as int + m]),
        ));
    }
    r
}

/// What a review note renders to: its text, and if the joined excerpts are
/// non-empty, the fenced excerpt block after it.
pub open spec fn review_note_rendered(text: Seq<char>, refs: Seq<Seq<char>>) -> Seq<char> {
    let joined = join_with(refs, note_sep());
    if joined.len() == 0 {
        text
    } else {
        text + note_sep() + joined + note_sep()
    }
}

/// A curated review note: free text plus attached source excerpts.
#[derive(Debug, Clone)]
pub struct ReviewNote {
    pub text: String,
    pub references: Vec<String>,
}

impl ReviewNote {
    /// A fresh note with no excerpts.
    pub fn new(text: String) -> (r: Self)
        ensures
            r.text == text,
            r.references@ == Seq::<String>::empty(),
    {
        ReviewNote { text, references: Vec::new() }
    }

    /// Attaches the excerpt for `first..=second` (1-based, inclusive) of
    /// the given source lines as one more reference block.
    pub fn add_code_reference(&mut self, code_lines: &Vec<String>, first: usize, second: usize)
        requires
            first >= 1,
            second as int + 1 >= first as int,
        ensures
            final(self).text == old(self).text,
            final(self).references.deep_view() == old(self).references.deep_view().push(
                excerpt_text(code_lines.deep_view(), first as int, second as int),
            ),
    {
        let excerpt = extract_excerpt(code_lines, first, second);
        proof {
            assert(self.references@.push(excerpt).map_values(|s: String| s.deep_view())
                =~~= self.references.deep_view().push(excerpt@));
        }
        self.references.push(excerpt);
        proof {
            assert(self.references.deep_view() =~~= old(self).references.deep_view().push(
                excerpt_text(code_lines.deep_view(), first as int, second as int),
            ));
        }
    }

    /// The bare text under which the note is stored in a bank ledger.
    pub fn text_to_storage(self) -> (r: String)
        ensures
            r == self.text,
    {
        self.text
    }
}

impl Note for ReviewNote {
    open spec fn text_spec(&self) -> Seq<char> {
        review_note_rendered(self.text@, self.references.deep_view())
    }

    fn text(&self) -> (r: String) {
        let joined = join_strings(&self.references, note_separator());
        if joined.as_str().unicode_len() == 0 {
            self.text.clone()
        } else {
            let mut r = self.text.clone();
            r.append(note_separator());
            r.append(joined.as_str());
            r.append(note_separator());
            r
        }
    }

    fn from_text(text: String) -> (r: Self) {
        let r = ReviewNote { text, references: Vec::new() };
        proof {
            assert(r.references.deep_view() =~~= Seq::<Seq<char>>::empty());
        }
        r
    }
}

} // verus!
