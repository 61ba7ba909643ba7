//! The file-backed note ledger: two parallel ordered note lists and their
//! human-readable text format.
//!
//! The wire format is fixed here once, in spec functions, and both
//! directions are verified against it:
//!
//! ```text
//! Necessary:
//! 0) first note
//! 1) second note
//! Optional:
//! 0) a side note
//! ```
//!
//! A section header appears only when its list is non-empty; an empty ledger
//! renders to an empty file. Each note line is the note's 0-based position
//! in decimal, `") "`, then the note's rendered text. The parser insists
//! that the indices count up from zero without holes and fails with
//! [`LedgerError::Format`] otherwise.

use vstd::prelude::*;

use crate::lines::{line_split, split_lines};
use crate::textfmt::{
    all_digits, dec_rep, dec_val, find_char, first_index_of, parse_usize, str_eq, usize_to_string,
};

verus! {

/// Why a ledger operation failed: the backing text does not follow the
/// format, or a requested note index is out of bounds.
#[derive(Debug, Clone, Copy, PartialEq, Eq, Structural)]
pub enum LedgerError {
    Format,
    NotFound,
}

/// A note that can render itself to one plain-text block and be rebuilt
/// from one, the capability the ledger stores.
pub trait Note: Sized {
    /// The note's rendered text, the form in which the ledger stores it.
    spec fn text_spec(&self) -> Seq<char>;

    /// Renders the note.
    fn text(&self) -> (r: String)
        ensures
            r@ == self.text_spec(),
    ;

    /// Rebuilds a note from rendered text.
    fn from_text(text: String) -> (r: Self)
        ensures
            r.text_spec() == text@,
    ;
}

/// One numbered note line: the 0-based index in decimal, `") "`, the text.
pub open spec fn render_note_line(i: nat, text: Seq<char>) -> Seq<char> {
    dec_rep(i) + seq![')', ' '] + text
}

/// The newline-terminated note lines of one section, numbered from zero.
pub open spec fn render_section_lines(texts: Seq<Seq<char>>) -> Seq<char>
    decreases texts.len(),
{
    if texts.len() == 0 {
        Seq::empty()
    } else {
        render_section_lines(texts.drop_last()) + render_note_line(
            (texts.len() - 1) as nat,
            texts.last(),
        ) + seq!['\n']
    }
}

/// The full rendered ledger. Headers appear only for non-empty lists, so an
/// empty ledger renders to the empty text.
pub open spec fn render_ledger(nec: Seq<Seq<char>>, opt: Seq<Seq<char>>) -> Seq<char> {
    (if nec.len() > 0 {
        "Necessary:"@ + seq!['\n'] + render_section_lines(nec)
    } else {
        Seq::<char>::empty()
    }) + (if opt.len() > 0 {
        "Optional:"@ + seq!['\n'] + render_section_lines(opt)
    } else {
        Seq::<char>::empty()
    })
}

/// Reads one numbered note line: the decimal index before the first `')'`
/// (which must fit in `usize`), a single space, then the text.
pub open spec fn parse_note_line(line: Seq<char>) -> Option<(nat, Seq<char>)> {
    let j = first_index_of(line, ')');
    if j < 0 {
        None
    } else {
        let ds = line.subrange(0, j);
        if ds.len() > 0 && all_digits(ds) && dec_val(ds) <= usize::MAX as nat && j + 1
            < line.len() && line[j + 1] == ' ' {
            Some((dec_val(ds), line.subrange(j + 2, line.len() as int)))
        } else {
            None
        }
    }
}

/// Reads the lines of the optional section, requiring indices `k, k+1, ...`.
pub open spec fn parse_optional_lines(lns: Seq<Seq<char>>, k: nat) -> Option<Seq<Seq<char>>>
    decreases lns.len(),
{
    if lns.len() == 0 {
        Some(Seq::empty())
    } else {
        match parse_note_line(lns[0]) {
            Some((i, t)) => if i == k {
                match parse_optional_lines(lns.drop_first(), k + 1) {
                    Some(rest) => Some(seq![t] + rest),
                    None => None,
                }
            } else {
                None
            },
            None => None,
        }
    }
}

/// Reads the lines after the `Necessary:` header, requiring indices
/// `k, k+1, ...`; a line reading `Optional:` switches to the optional
/// section, whose numbering restarts at zero.
pub open spec fn parse_necessary_lines(lns: Seq<Seq<char>>, k: nat) -> Option<
    (Seq<Seq<char>>, Seq<Seq<char>>),
>
    decreases lns.len(),
{
    if lns.len() == 0 {
        Some((Seq::empty(), Seq::empty()))
    } else if lns[0] == "Optional:"@ {
        match parse_optional_lines(lns.drop_first(), 0) {
            Some(o) => Some((Seq::empty(), o)),
            None => None,
        }
    } else {
        match parse_note_line(lns[0]) {
            Some((i, t)) => if i == k {
                match parse_necessary_lines(lns.drop_first(), k + 1) {
                    Some(r) => Some((seq![t] + r.0, r.1)),
                    None => None,
                }
            } else {
                None
            },
            None => None,
        }
    }
}

/// Reads a whole ledger text: empty text is an empty ledger; otherwise the
/// first line must read `Necessary:`.
pub open spec fn parse_ledger(content: Seq<char>) -> Option<(Seq<Seq<char>>, Seq<Seq<char>>)> {
    let lns = line_split(content);
    if lns.len() == 0 {
        Some((Seq::empty(), Seq::empty()))
    } else if lns[0] == "Necessary:"@ {
        parse_necessary_lines(lns.drop_first(), 0)
    } else {
        None
    }
}

/// The ledger state every clear produces, whatever came before: both lists
/// empty.
pub open spec fn cleared_state(texts: (Seq<Seq<char>>, Seq<Seq<char>>)) -> (
    Seq<Seq<char>>,
    Seq<Seq<char>>,
) {
    (Seq::empty(), Seq::empty())
}

/// The rendered ledger, seen as the list of its lines (before the newlines
/// are put in): the section headers and the numbered note lines.
pub open spec fn section_records(texts: Seq<Seq<char>>) -> Seq<Seq<char>>
    decreases texts.len(),
{
    if texts.len() == 0 {
        Seq::empty()
    } else {
        section_records(texts.drop_last()).push(
            render_note_line((texts.len() - 1) as nat, texts.last()),
        )
    }
}

/// All lines of a rendered ledger, headers included.
pub open spec fn ledger_records(nec: Seq<Seq<char>>, opt: Seq<Seq<char>>) -> Seq<Seq<char>> {
    (if nec.len() > 0 {
        seq!["Necessary:"@] + section_records(nec)
    } else {
        Seq::<Seq<char>>::empty()
    }) + (if opt.len() > 0 {
        seq!["Optional:"@] + section_records(opt)
    } else {
        Seq::<Seq<char>>::empty()
    })
}

/// Each record followed by a newline.
pub open spec fn join_lines(records: Seq<Seq<char>>) -> Seq<char>
    decreases records.len(),
{
    if records.len() == 0 {
        Seq::empty()
    } else {
        join_lines(records.drop_last()) + records.last() + seq!['\n']
    }
}

proof fn lemma_join_lines_concat(a: Seq<Seq<char>>, b: Seq<Seq<char>>)
    ensures
        join_lines(a + b) == join_lines(a) + join_lines(b),
    decreases b.len(),
{
    if b.len() == 0 {
        assert(a + b =~~= a);
        assert(join_lines(a) + join_lines(b) =~= join_lines(a));
    } else {
        lemma_join_lines_concat(a, b.drop_last());
        assert((a + b).drop_last() =~~= a + b.drop_last());
        assert((a + b).last() == b.last());
        assert(join_lines(a + b) =~= join_lines(a) + join_lines(b));
    }
}

proof fn lemma_section_lines_join(texts: Seq<Seq<char>>)
    ensures
        render_section_lines(texts) == join_lines(section_records(texts)),
    decreases texts.len(),
{
    if texts.len() > 0 {
        lemma_section_lines_join(texts.drop_last());
        let line = render_note_line((texts.len() - 1) as nat, texts.last());
        assert(section_records(texts.drop_last()).push(line).drop_last()
            =~~= section_records(texts.drop_last()));
        assert(section_records(texts.drop_last()).push(line).last() == line);
    }
}

proof fn lemma_join_single_header(h: Seq<char>, recs: Seq<Seq<char>>)
    ensures
        join_lines(seq![h] + recs) == h + seq!['\n'] + join_lines(recs),
{
    lemma_join_lines_concat(seq![h], recs);
    assert(seq![h].drop_last() =~~= Seq::<Seq<char>>::empty());
    assert(seq![h].last() == h);
    assert(join_lines(Seq::<Seq<char>>::empty()) == Seq::<char>::empty());
    assert(join_lines(seq![h]) == join_lines(seq![h].drop_last()) + seq![h].last() + seq!['\n']);
    assert(join_lines(seq![h]) =~= h + seq!['\n']);
    assert(h + seq!['\n'] + join_lines(recs) =~= (h + seq!['\n']) + join_lines(recs));
}

/// Rendering a ledger is exactly joining its record lines with newlines.
proof fn lemma_render_is_join(nec: Seq<Seq<char>>, opt: Seq<Seq<char>>)
    ensures
        render_ledger(nec, opt) == join_lines(ledger_records(nec, opt)),
{
    lemma_section_lines_join(nec);
    lemma_section_lines_join(opt);
    let np = if nec.len() > 0 {
        seq!["Necessary:"@] + section_records(nec)
    } else {
        Seq::<Seq<char>>::empty()
    };
    let op = if opt.len() > 0 {
        seq!["Optional:"@] + section_records(opt)
    } else {
        Seq::<Seq<char>>::empty()
    };
    lemma_join_lines_concat(np, op);
    if nec.len() > 0 {
        lemma_join_single_header("Necessary:"@, section_records(nec));
    }
    if opt.len() > 0 {
        lemma_join_single_header("Optional:"@, section_records(opt));
    }
    assert(render_ledger(nec, opt) =~= join_lines(np) + join_lines(op));
}

/// No character of any record of `records` is a newline.
pub open spec fn records_newline_free(records: Seq<Seq<char>>) -> bool {
    forall|i: int, k: int|
        0 <= i < records.len() && 0 <= k < records[i].len() ==> #[trigger] records[i][k] != '\n'
}

/// Splitting the joined records recovers the records, provided none of them
/// contains a newline of its own.
proof fn lemma_join_lines_split(records: Seq<Seq<char>>)
    requires
        records_newline_free(records),
    ensures
        line_split(join_lines(records)) =~~= records,
    decreases records.len(),
{
    if records.len() > 0 {
        let dl = records.drop_last();
        let last = records.last();
        assert(records_newline_free(dl));
        lemma_join_lines_split(dl);
        assert(forall|k: int| 0 <= k < last.len() ==> #[trigger] last[k] != '\n');
        if dl.len() == 0 {
            assert(join_lines(records) =~= last + seq!['\n']);
            crate::lines::lemma_line_split_terminated(last);
            assert(line_split(join_lines(records)) =~~= seq![last]);
            assert(seq![last] =~~= records);
        } else {
            let p = join_lines(dl);
            assert(p.len() > 0 && p.last() == '\n');
            assert(join_lines(records) =~= p + (last + seq!['\n']));
            crate::lines::lemma_line_split_concat(p, last + seq!['\n']);
            crate::lines::lemma_line_split_terminated(last);
            assert(line_split(join_lines(records)) =~~= dl + seq![last]);
            assert(dl + seq![last] =~~= records);
        }
    }
}

proof fn lemma_section_records_elts(texts: Seq<Seq<char>>)
    ensures
        section_records(texts).len() == texts.len(),
        forall|i: int|
            0 <= i < texts.len() ==> #[trigger] section_records(texts)[i] == render_note_line(
                i as nat,
                texts[i],
            ),
    decreases texts.len(),
{
    if texts.len() > 0 {
        lemma_section_records_elts(texts.drop_last());
        assert(forall|i: int|
            0 <= i < texts.len() - 1 ==> texts.drop_last()[i] == texts[i]);
    }
}

/// A digit character is neither a newline, a closing parenthesis, nor the
/// first character of a section header.
proof fn lemma_digit_not_special(c: char)
    requires
        crate::textfmt::is_digit(c),
    ensures
        c != '\n',
        c != ')',
        c != 'O',
        c != 'N',
{
}

proof fn lemma_header_chars()
    ensures
        "Necessary:"@.len() == 10,
        "Optional:"@.len() == 9,
        forall|k: int| 0 <= k < "Necessary:"@.len() ==> #[trigger] "Necessary:"@[k] != '\n',
        forall|k: int| 0 <= k < "Optional:"@.len() ==> #[trigger] "Optional:"@[k] != '\n',
        "Necessary:"@[0] == 'N',
        "Optional:"@[0] == 'O',
{
    reveal_strlit("Necessary:");
    reveal_strlit("Optional:");
}

proof fn lemma_note_line_newline_free(i: nat, text: Seq<char>)
    requires
        forall|k: int| 0 <= k < text.len() ==> text[k] != '\n',
    ensures
        forall|k: int|
            0 <= k < render_note_line(i, text).len() ==> #[trigger] render_note_line(i, text)[k]
                != '\n',
{
    crate::textfmt::lemma_dec_rep_digits(i);
    let line = render_note_line(i, text);
    let d = dec_rep(i).len() as int;
    assert forall|k: int| 0 <= k < line.len() implies line[k] != '\n' by {
        if k < d {
            assert(line[k] == dec_rep(i)[k]);
            lemma_digit_not_special(dec_rep(i)[k]);
        } else if k < d + 2 {
            assert(line[k] == seq![')', ' '][k - d]);
        } else {
            assert(line[k] == text[k - d - 2]);
        }
    }
}

/// Every character of every text is plain: no list of texts with a newline
/// inside any of them.
pub open spec fn texts_newline_free(texts: Seq<Seq<char>>) -> bool {
    forall|i: int, k: int|
        0 <= i < texts.len() && 0 <= k < texts[i].len() ==> #[trigger] texts[i][k] != '\n'
}

proof fn lemma_ledger_records_newline_free(nec: Seq<Seq<char>>, opt: Seq<Seq<char>>)
    requires
        texts_newline_free(nec),
        texts_newline_free(opt),
    ensures
        records_newline_free(ledger_records(nec, opt)),
{
    lemma_header_chars();
    lemma_section_records_elts(nec);
    lemma_section_records_elts(opt);
    let recs = ledger_records(nec, opt);
    assert forall|i: int, k: int|
        0 <= i < recs.len() && 0 <= k < recs[i].len() implies #[trigger] recs[i][k] != '\n' by {
        let np = if nec.len() > 0 {
            seq!["Necessary:"@] + section_records(nec)
        } else {
            Seq::<Seq<char>>::empty()
        };
        if i < np.len() {
            assert(recs[i] == np[i]);
            if nec.len() > 0 {
                if i == 0 {
                    assert(np[i] == "Necessary:"@);
                } else {
                    assert(np[i] == render_note_line((i - 1) as nat, nec[i - 1]));
                    assert(forall|k2: int| 0 <= k2 < nec[i - 1].len() ==> #[trigger] nec[i - 1][k2] != '\n');
                    lemma_note_line_newline_free((i - 1) as nat, nec[i - 1]);
                }
            }
        } else {
            let j = i - np.len();
            assert(opt.len() > 0);
            if j == 0 {
                assert(recs[i] == "Optional:"@);
            } else {
                assert(recs[i] == render_note_line((j - 1) as nat, opt[j - 1]));
                assert(forall|k2: int| 0 <= k2 < opt[j - 1].len() ==> #[trigger] opt[j - 1][k2] != '\n');
                lemma_note_line_newline_free((j - 1) as nat, opt[j - 1]);
            }
        }
    }
}

/// Reading back a rendered note line yields the index and text it was
/// rendered from.
proof fn lemma_parse_render_note_line(i: nat, text: Seq<char>)
    requires
        i <= usize::MAX as nat,
    ensures
        parse_note_line(render_note_line(i, text)) == Some((i, text)),
{
    crate::textfmt::lemma_dec_rep_digits(i);
    crate::textfmt::lemma_dec_val_dec_rep(i);
    let line = render_note_line(i, text);
    let d = dec_rep(i).len() as int;
    assert(line[d] == ')');
    assert forall|k: int| 0 <= k < d implies line[k] != ')' by {
        assert(line[k] == dec_rep(i)[k]);
        lemma_digit_not_special(dec_rep(i)[k]);
    }
    crate::textfmt::lemma_first_index_of(line, ')');
    let j = first_index_of(line, ')');
    assert(j != -1);
    assert(j == d);
    assert(line.subrange(0, d) =~= dec_rep(i));
    assert(line[d + 1] == ' ');
    assert(line.subrange(d + 2, line.len() as int) =~= text);
}

/// The lines of one section starting at position `j`, numbered from `j`.
spec fn recs_from(texts: Seq<Seq<char>>, j: int) -> Seq<Seq<char>> {
    Seq::new((texts.len() - j) as nat, |m: int| render_note_line((j + m) as nat, texts[j + m]))
}

proof fn lemma_parse_opt_section(texts: Seq<Seq<char>>, j: int)
    requires
        0 <= j <= texts.len(),
        texts.len() <= usize::MAX,
    ensures
        parse_optional_lines(recs_from(texts, j), j as nat) == Some(
            texts.subrange(j, texts.len() as int),
        ),
    decreases texts.len() - j,
{
    let lns = recs_from(texts, j);
    if j == texts.len() {
        assert(lns =~~= Seq::<Seq<char>>::empty());
        assert(texts.subrange(j, texts.len() as int) =~~= Seq::<Seq<char>>::empty());
    } else {
        assert(lns[0] == render_note_line(j as nat, texts[j]));
        lemma_parse_render_note_line(j as nat, texts[j]);
        assert(lns.drop_first() =~~= recs_from(texts, j + 1));
        lemma_parse_opt_section(texts, j + 1);
        assert(seq![texts[j]] + texts.subrange(j + 1, texts.len() as int) =~~= texts.subrange(
            j,
            texts.len() as int,
        ));
    }
}

proof fn lemma_parse_nec_section(texts: Seq<Seq<char>>, j: int, tail: Seq<Seq<char>>)
    requires
        0 <= j <= texts.len(),
        texts.len() <= usize::MAX,
    ensures
        parse_necessary_lines(recs_from(texts, j) + tail, j as nat) == (match parse_necessary_lines(
            tail,
            texts.len() as nat,
        ) {
            Some(r) => Some((texts.subrange(j, texts.len() as int) + r.0, r.1)),
            None => None,
        }),
    decreases texts.len() - j,
{
    let lns = recs_from(texts, j) + tail;
    if j == texts.len() {
        assert(lns =~~= tail);
        match parse_necessary_lines(tail, texts.len() as nat) {
            Some(r) => {
                assert(texts.subrange(j, texts.len() as int) + r.0 =~~= r.0);
            },
            None => {},
        }
    } else {
        let line = render_note_line(j as nat, texts[j]);
        assert(lns[0] == line);
        lemma_parse_render_note_line(j as nat, texts[j]);
        lemma_header_chars();
        crate::textfmt::lemma_dec_rep_digits(j as nat);
        assert(line[0] == dec_rep(j as nat)[0]);
        lemma_digit_not_special(dec_rep(j as nat)[0]);
        assert(line != "Optional:"@);
        assert(lns.drop_first() =~~= recs_from(texts, j + 1) + tail);
        lemma_parse_nec_section(texts, j + 1, tail);
        match parse_necessary_lines(tail, texts.len() as nat) {
            Some(r) => {
                assert(seq![texts[j]] + (texts.subrange(j + 1, texts.len() as int) + r.0)
                    =~~= texts.subrange(j, texts.len() as int) + r.0);
            },
            None => {},
        }
    }
}

/// ROUND TRIP: a ledger whose note texts contain no raw newline renders to
/// a text that parses back to exactly the same two ordered lists. (The
/// format cannot carry an optional list without a necessary one: the parser
/// demands the `Necessary:` header first, so that one combination is
/// excluded here.)
pub proof fn lemma_render_parse_round_trip(nec: Seq<Seq<char>>, opt: Seq<Seq<char>>)
    requires
        texts_newline_free(nec),
        texts_newline_free(opt),
        opt.len() > 0 ==> nec.len() > 0,
        nec.len() <= usize::MAX,
        opt.len() <= usize::MAX,
    ensures
        parse_ledger(render_ledger(nec, opt)) == Some((nec, opt)),
{
    let recs = ledger_records(nec, opt);
    lemma_render_is_join(nec, opt);
    lemma_ledger_records_newline_free(nec, opt);
    lemma_join_lines_split(recs);
    lemma_header_chars();
    lemma_section_records_elts(nec);
    lemma_section_records_elts(opt);
    if nec.len() == 0 {
        assert(recs =~~= Seq::<Seq<char>>::empty());
        assert(opt =~~= Seq::<Seq<char>>::empty());
    } else {
        let tail = if opt.len() > 0 {
            seq!["Optional:"@] + section_records(opt)
        } else {
            Seq::<Seq<char>>::empty()
        };
        assert(recs[0] == "Necessary:"@);
        assert(recs.len() > 0);
        assert(section_records(nec) =~~= recs_from(nec, 0));
        assert(section_records(opt) =~~= recs_from(opt, 0));
        assert(recs.drop_first() =~~= recs_from(nec, 0) + tail);
        lemma_parse_nec_section(nec, 0, tail);
        if opt.len() > 0 {
            assert(tail[0] == "Optional:"@);
            assert(tail.drop_first() =~~= recs_from(opt, 0));
            lemma_parse_opt_section(opt, 0);
            assert(parse_optional_lines(tail.drop_first(), 0) == Some(
                opt.subrange(0, opt.len() as int),
            ));
            assert(opt.subrange(0, opt.len() as int) =~~= opt);
            assert(parse_necessary_lines(tail, nec.len() as nat) == Some(
                (Seq::<Seq<char>>::empty(), opt),
            ));
            assert(nec.subrange(0, nec.len() as int) + Seq::<Seq<char>>::empty() =~~= nec);
        } else {
            assert(tail =~~= Seq::<Seq<char>>::empty());
            assert(parse_necessary_lines(tail, nec.len() as nat) == Some(
                (Seq::<Seq<char>>::empty(), Seq::<Seq<char>>::empty()),
            ));
            assert(nec.subrange(0, nec.len() as int) + Seq::<Seq<char>>::empty() =~~= nec);
            assert(opt =~~= Seq::<Seq<char>>::empty());
        }
    }
}

/// APPEND PERSISTS: after appending one more necessary note, rendering and
/// re-parsing yields the old necessary list with exactly that note at the
/// index equal to the prior list length.
pub proof fn lemma_append_round_trip(nec: Seq<Seq<char>>, opt: Seq<Seq<char>>, t: Seq<char>)
    requires
        texts_newline_free(nec),
        texts_newline_free(opt),
        forall|k: int| 0 <= k < t.len() ==> t[k] != '\n',
        nec.len() < usize::MAX,
        opt.len() <= usize::MAX,
    ensures
        parse_ledger(render_ledger(nec.push(t), opt)) == Some((nec.push(t), opt)),
        nec.push(t)[nec.len() as int] == t,
{
    assert(texts_newline_free(nec.push(t)));
    lemma_render_parse_round_trip(nec.push(t), opt);
}

/// CLEAR IDEMPOTENCE: clearing wipes both lists whatever they held, so a
/// second clear changes nothing, and the cleared ledger renders to an empty
/// file.
pub proof fn lemma_clear_idempotent(texts: (Seq<Seq<char>>, Seq<Seq<char>>))
    ensures
        cleared_state(cleared_state(texts)) == cleared_state(texts),
        render_ledger(cleared_state(texts).0, cleared_state(texts).1) == Seq::<char>::empty(),
{
    assert(render_ledger(cleared_state(texts).0, cleared_state(texts).1) =~= Seq::<char>::empty());
}

/// EMPTY LEDGER: an empty ledger renders to zero characters, and empty text
/// parses to an empty ledger.
pub proof fn lemma_empty_ledger()
    ensures
        render_ledger(Seq::empty(), Seq::empty()) == Seq::<char>::empty(),
        parse_ledger(Seq::empty()) == Some(
            (Seq::<Seq<char>>::empty(), Seq::<Seq<char>>::empty()),
        ),
{
    assert(render_ledger(Seq::empty(), Seq::empty()) =~= Seq::<char>::empty());
}

/// A ledger of two ordered note lists bound to the name of its backing
/// file. The caller owns the actual file traffic: it hands the file's text
/// to [`FileNotesStorage::new`] and writes back what
/// [`FileNotesStorage::render`] returns after every mutation.
#[derive(Debug)]
pub struct FileNotesStorage<N: Note, O: Note> {
    /// Where the caller persists this ledger.
    pub file_name: String,
    pub necessary_notes: Vec<N>,
    pub optional_notes: Vec<O>,
}

impl<N: Note, O: Note> FileNotesStorage<N, O> {
    /// The rendered texts of the necessary notes, in order.
    pub open spec fn nec_texts(&self) -> Seq<Seq<char>> {
        self.necessary_notes@.map_values(|n: N| n.text_spec())
    }

    /// The rendered texts of the optional notes, in order.
    pub open spec fn opt_texts(&self) -> Seq<Seq<char>> {
        self.optional_notes@.map_values(|o: O| o.text_spec())
    }

    /// Reads one numbered note line.
    pub fn parse_line(line: &str) -> (r: Option<(usize, String)>)
        ensures
            match r {
                Some(p) => parse_note_line(line@) == Some((p.0 as nat, p.1@)),
                None => parse_note_line(line@) is None,
            },
    {
        let n = line.unicode_len();
        let j = match find_char(line, ')') {
            None => {
                return None;
            },
            Some(j) => j,
        };
        proof {
            crate::textfmt::lemma_first_index_of(line@, ')');
        }
        let num = match parse_usize(line.substring_char(0, j)) {
            None => {
                return None;
            },
            Some(num) => num,
        };
        if j + 1 < n && line.get_char(j + 1) == ' ' {
            let text = line.substring_char(j + 2, n).to_owned();
            Some((num, text))
        } else {
            None
        }
    }

    /// Builds a ledger from the text of its backing file (absent or empty
    /// files read as the empty text). Returns exactly what the format
    /// admits; any deviation is a `Format` error.
    pub fn new(file_name: String, content: &str) -> (r: Result<Self, LedgerError>)
        ensures
            match r {
                Ok(ledger) => {
                    &&& parse_ledger(content@) == Some((ledger.nec_texts(), ledger.opt_texts()))
                    &&& ledger.file_name == file_name
                },
                Err(e) => parse_ledger(content@) is None && e == LedgerError::Format,
            },
    {
        let lns = split_lines(content);
        let ghost all = lns.deep_view();
        let mut nec: Vec<N> = Vec::new();
        let mut opt: Vec<O> = Vec::new();
        proof {
            assert(nec@.map_values(|x: N| x.text_spec()) =~~= Seq::<Seq<char>>::empty());
            assert(opt@.map_values(|x: O| x.text_spec()) =~~= Seq::<Seq<char>>::empty());
        }
        if lns.len() == 0 {
            return Ok(FileNotesStorage { file_name, necessary_notes: nec, optional_notes: opt });
        }
        if !str_eq(lns[0].as_str(), "Necessary:") {
            return Err(LedgerError::Format);
        }
        let mut pos: usize = 1;
        let mut in_opt = false;
        proof {
            assert(all.subrange(1, all.len() as int) =~~= all.drop_first());
            match parse_necessary_lines(all.drop_first(), 0) {
                Some(r) => {
                    assert(Seq::<Seq<char>>::empty() + r.0 =~~= r.0);
                },
                None => {},
            }
        }
        while pos < lns.len()
            invariant
                1 <= pos <= lns.len(),
                all == lns.deep_view(),
                all == line_split(content@),
                all.len() == lns.len(),
                all.len() > 0,
                all[0] == "Necessary:"@,
                !in_opt ==> opt@.len() == 0,
                !in_opt ==> parse_necessary_lines(all.drop_first(), 0) == (match parse_necessary_lines(
                    all.subrange(pos as int, all.len() as int),
                    nec@.len(),
                ) {
                    Some(r) => Some(
                        (nec@.map_values(|x: N| x.text_spec()) + r.0, r.1),
                    ),
                    None => None,
                }),
                in_opt ==> parse_necessary_lines(all.drop_first(), 0) == (match parse_optional_lines(
                    all.subrange(pos as int, all.len() as int),
                    opt@.len(),
                ) {
                    Some(o) => Some(
                        (
                            nec@.map_values(|x: N| x.text_spec()),
                            opt@.map_values(|x: O| x.text_spec()) + o,
                        ),
                    ),
                    None => None,
                }),
            decreases lns.len() - pos,
        {
            let ghost rest = all.subrange(pos as int, all.len() as int);
            proof {
                assert(rest[0] == all[pos as int]);
                assert(all[pos as int] == lns@[pos as int]@);
                assert(rest.drop_first() =~~= all.subrange(pos as int + 1, all.len() as int));
            }
            let line = &lns[pos];
            if !in_opt && str_eq(line.as_str(), "Optional:") {
                proof {
                    match parse_optional_lines(rest.drop_first(), 0) {
                        Some(o) => {
                            assert(Seq::<Seq<char>>::empty() + o =~~= o);
                            assert((opt@.map_values(|x: O| x.text_spec()) + o) =~~= o);
                            assert((nec@.map_values(|x: N| x.text_spec())
                                + Seq::<Seq<char>>::empty()) =~~= nec@.map_values(
                                |x: N| x.text_spec(),
                            ));
                        },
                        None => {},
                    }
                }
                in_opt = true;
                pos = pos + 1;
                continue;
            }
            match Self::parse_line(line.as_str()) {
                None => {
                    return Err(LedgerError::Format);
                },
                Some((num, text)) => {
                    if !in_opt {
                        if num != nec.len() {
                            return Err(LedgerError::Format);
                        }
                        let note = N::from_text(text);
                        proof {
                            let f = |x: N| x.text_spec();
                            assert(nec@.push(note).map_values(f) =~~= nec@.map_values(f).push(
                                note.text_spec(),
                            ));
                            match parse_necessary_lines(rest.drop_first(), nec@.len() + 1) {
                                Some(r) => {
                                    assert(nec@.map_values(f) + (seq![note.text_spec()] + r.0)
                                        =~~= nec@.map_values(f).push(note.text_spec()) + r.0);
                                },
                                None => {},
                            }
                        }
                        nec.push(note);
                    } else {
                        if num != opt.len() {
                            return Err(LedgerError::Format);
                        }
                        let note = O::from_text(text);
                        proof {
                            let f = |x: O| x.text_spec();
                            assert(opt@.push(note).map_values(f) =~~= opt@.map_values(f).push(
                                note.text_spec(),
                            ));
                            match parse_optional_lines(rest.drop_first(), opt@.len() + 1) {
                                Some(o) => {
                                    assert(opt@.map_values(f) + (seq![note.text_spec()] + o)
                                        =~~= opt@.map_values(f).push(note.text_spec()) + o);
                                },
                                None => {},
                            }
                        }
                        opt.push(note);
                    }
                    pos = pos + 1;
                },
            }
        }
        proof {
            assert(all.subrange(pos as int, all.len() as int) =~~= Seq::<Seq<char>>::empty());
            if !in_opt {
                assert(nec@.map_values(|x: N| x.text_spec()) + Seq::<Seq<char>>::empty()
                    =~~= nec@.map_values(|x: N| x.text_spec()));
            } else {
                assert(opt@.map_values(|x: O| x.text_spec()) + Seq::<Seq<char>>::empty()
                    =~~= opt@.map_values(|x: O| x.text_spec()));
            }
        }
        Ok(FileNotesStorage { file_name, necessary_notes: nec, optional_notes: opt })
    }

    /// Renders the whole ledger in its file format.
    pub fn render(&self) -> (r: String)
        ensures
            r@ == render_ledger(self.nec_texts(), self.opt_texts()),
    {
        proof {
            reveal_strlit("\n");
            reveal_strlit(") ");
        }
        let mut out = String::new();
        if self.necessary_notes.len() > 0 {
            out.append("Necessary:");
            out.append("\n");
            proof {
                assert(self.nec_texts().subrange(0, 0) =~~= Seq::<Seq<char>>::empty());
                assert(out@ =~= "Necessary:"@ + seq!['\n'] + render_section_lines(
                    self.nec_texts().subrange(0, 0),
                ));
            }
            let mut i: usize = 0;
            while i < self.necessary_notes.len()
                invariant
                    0 <= i <= self.necessary_notes@.len(),
                    out@ == "Necessary:"@ + seq!['\n'] + render_section_lines(
                        self.nec_texts().subrange(0, i as int),
                    ),
                decreases self.necessary_notes@.len() - i,
            {
                let num = usize_to_string(i);
                out.append(num.as_str());
                out.append(") ");
                let t = self.necessary_notes[i].text();
                out.append(t.as_str());
                out.append("\n");
                proof {
                    reveal_strlit("\n");
                    reveal_strlit(") ");
                    let texts = self.nec_texts();
                    assert(texts.subrange(0, i as int + 1).drop_last() =~~= texts.subrange(
                        0,
                        i as int,
                    ));
                    assert(texts.subrange(0, i as int + 1).last() == texts[i as int]);
                    assert(texts[i as int] == self.necessary_notes@[i as int].text_spec());
                    assert(out@ =~= "Necessary:"@ + seq!['\n'] + render_section_lines(
                        texts.subrange(0, i as int + 1),
                    ));
                }
                i = i + 1;
            }
            proof {
                assert(self.nec_texts().subrange(0, self.necessary_notes@.len() as int)
                    =~~= self.nec_texts());
            }
        }
        let ghost first_part = out@;
        proof {
            if self.necessary_notes@.len() == 0 {
                assert(first_part =~= Seq::<char>::empty());
            }
        }
        if self.optional_notes.len() > 0 {
            out.append("Optional:");
            out.append("\n");
            proof {
                assert(self.opt_texts().subrange(0, 0) =~~= Seq::<Seq<char>>::empty());
                assert(out@ =~= first_part + ("Optional:"@ + seq!['\n'] + render_section_lines(
                    self.opt_texts().subrange(0, 0),
                )));
            }
            let mut i: usize = 0;
            while i < self.optional_notes.len()
                invariant
                    0 <= i <= self.optional_notes@.len(),
                    out@ == first_part + ("Optional:"@ + seq!['\n'] + render_section_lines(
                        self.opt_texts().subrange(0, i as int),
                    )),
                decreases self.optional_notes@.len() - i,
            {
                let num = usize_to_string(i);
                out.append(num.as_str());
                out.append(") ");
                let t = self.optional_notes[i].text();
                out.append(t.as_str());
                out.append("\n");
                proof {
                    reveal_strlit("\n");
                    reveal_strlit(") ");
                    let texts = self.opt_texts();
                    assert(texts.subrange(0, i as int + 1).drop_last() =~~= texts.subrange(
                        0,
                        i as int,
                    ));
                    assert(texts.subrange(0, i as int + 1).last() == texts[i as int]);
                    assert(texts[i as int] == self.optional_notes@[i as int].text_spec());
                    assert(out@ =~= first_part + ("Optional:"@ + seq!['\n'] + render_section_lines(
                        texts.subrange(0, i as int + 1),
                    )));
                }
                i = i + 1;
            }
            proof {
                assert(self.opt_texts().subrange(0, self.optional_notes@.len() as int)
                    =~~= self.opt_texts());
            }
        } else {
            proof {
                assert(out@ =~= first_part + Seq::<char>::empty());
            }
        }
        out
    }

    /// Appends a note to the necessary list.
    pub fn add_note(&mut self, note: N)
        ensures
            final(self).necessary_notes@ == old(self).necessary_notes@.push(note),
            final(self).nec_texts() == old(self).nec_texts().push(note.text_spec()),
            final(self).optional_notes@ == old(self).optional_notes@,
            final(self).file_name == old(self).file_name,
    {
        self.necessary_notes.push(note);
        proof {
            let f = |x: N| x.text_spec();
            assert(self.necessary_notes@.map_values(f) =~~= old(
                self,
            ).necessary_notes@.map_values(f).push(note.text_spec()));
        }
    }

    /// Appends a note to the optional list.
    pub fn add_optional_note(&mut self, note: O)
        ensures
            final(self).optional_notes@ == old(self).optional_notes@.push(note),
            final(self).opt_texts() == old(self).opt_texts().push(note.text_spec()),
            final(self).necessary_notes@ == old(self).necessary_notes@,
            final(self).file_name == old(self).file_name,
    {
        self.optional_notes.push(note);
        proof {
            let f = |x: O| x.text_spec();
            assert(self.optional_notes@.map_values(f) =~~= old(
                self,
            ).optional_notes@.map_values(f).push(note.text_spec()));
        }
    }

    /// Looks a necessary note up by its 0-based index.
    pub fn find_note(&self, num: usize) -> (r: Result<&N, LedgerError>)
        ensures
            match r {
                Ok(note) => num < self.necessary_notes@.len() && *note
                    == self.necessary_notes@[num as int],
                Err(e) => num >= self.necessary_notes@.len() && e == LedgerError::NotFound,
            },
    {
        if num < self.necessary_notes.len() {
            Ok(&self.necessary_notes[num])
        } else {
            Err(LedgerError::NotFound)
        }
    }

    /// Looks an optional note up by its 0-based index.
    pub fn find_optional_note(&self, num: usize) -> (r: Result<&O, LedgerError>)
        ensures
            match r {
                Ok(note) => num < self.optional_notes@.len() && *note
                    == self.optional_notes@[num as int],
                Err(e) => num >= self.optional_notes@.len() && e == LedgerError::NotFound,
            },
    {
        if num < self.optional_notes.len() {
            Ok(&self.optional_notes[num])
        } else {
            Err(LedgerError::NotFound)
        }
    }

    /// Empties both lists. The state afterwards never depends on the state
    /// before, which is what makes clearing idempotent.
    pub fn clear(&mut self)
        ensures
            (final(self).nec_texts(), final(self).opt_texts()) == cleared_state(
                (old(self).nec_texts(), old(self).opt_texts()),
            ),
            final(self).necessary_notes@ == Seq::<N>::empty(),
            final(self).optional_notes@ == Seq::<O>::empty(),
            final(self).file_name == old(self).file_name,
            render_ledger(final(self).nec_texts(), final(self).opt_texts()) == Seq::<char>::empty(),
    {
        self.necessary_notes.clear();
        self.optional_notes.clear();
        proof {
            assert(self.necessary_notes@.map_values(|x: N| x.text_spec())
                =~~= Seq::<Seq<char>>::empty());
            assert(self.optional_notes@.map_values(|x: O| x.text_spec())
                =~~= Seq::<Seq<char>>::empty());
            assert(render_ledger(self.nec_texts(), self.opt_texts()) =~= Seq::<char>::empty());
        }
    }
}

} // verus!
