//! Splitting text into lines and joining pieces with a separator.
//!
//! A ledger file is a sequence of newline-terminated lines; the parser sees
//! the file as the list of lines, the renderer emits one line after another.
//! `line_split` fixes what "the lines of a text" means, mirroring how a
//! buffered reader yields lines: a trailing newline closes the last line and
//! adds nothing after it.

use vstd::prelude::*;

verus! {

/// The lines of `s`: maximal newline-free runs, where a final newline
/// terminates the last line rather than starting an empty one.
pub open spec fn line_split(s: Seq<char>) -> Seq<Seq<char>>
    decreases s.len(),
{
    if s.len() == 0 {
        Seq::empty()
    } else if s[0] == '\n' {
        seq![Seq::<char>::empty()] + line_split(s.drop_first())
    } else {
        let rest = line_split(s.drop_first());
        if rest.len() == 0 {
            seq![seq![s[0]]]
        } else {
            seq![seq![s[0]] + rest[0]] + rest.drop_first()
        }
    }
}

pub proof fn lemma_line_split_len(s: Seq<char>)
    requires
        s.len() > 0,
    ensures
        line_split(s).len() >= 1,
    decreases s.len(),
{
    if s[0] != '\n' && s.drop_first().len() > 0 {
        lemma_line_split_len(s.drop_first());
    }
}

/// A newline-free text is one single line.
pub proof fn lemma_line_split_single(s: Seq<char>)
    requires
        s.len() > 0,
        forall|i: int| 0 <= i < s.len() ==> s[i] != '\n',
    ensures
        line_split(s) =~~= seq![s],
    decreases s.len(),
{
    let rest = s.drop_first();
    if rest.len() == 0 {
        reveal_with_fuel(line_split, 2);
        assert(line_split(s) =~~= seq![seq![s[0]]]);
        assert(seq![s[0]] =~= s);
    } else {
        lemma_line_split_single(rest);
        assert(seq![s[0]] + rest =~= s);
    }
}

/// A newline-free text followed by a newline is exactly that one line.
pub proof fn lemma_line_split_terminated(a: Seq<char>)
    requires
        forall|i: int| 0 <= i < a.len() ==> a[i] != '\n',
    ensures
        line_split(a + seq!['\n']) =~~= seq![a],
    decreases a.len(),
{
    let s = a + seq!['\n'];
    if a.len() == 0 {
        reveal_with_fuel(line_split, 2);
        assert(s =~= seq!['\n']);
        assert(s.drop_first() =~= Seq::<char>::empty());
        assert(line_split(s) =~~= seq![Seq::<char>::empty()]);
    } else {
        assert(s[0] == a[0]);
        assert(s.drop_first() =~= a.drop_first() + seq!['\n']);
        lemma_line_split_terminated(a.drop_first());
        let rest = line_split(s.drop_first());
        assert(rest =~~= seq![a.drop_first()]);
        assert(seq![s[0]] + rest[0] =~= a);
        assert(line_split(s) =~~= seq![a]);
    }
}

/// Lines distribute over concatenation when the first part ends at a line
/// boundary.
pub proof fn lemma_line_split_concat(p: Seq<char>, q: Seq<char>)
    requires
        p.len() > 0,
        p.last() == '\n',
    ensures
        line_split(p + q) =~~= line_split(p) + line_split(q),
    decreases p.len(),
{
    let s = p + q;
    let p1 = p.drop_first();
    if p.len() == 1 {
        assert(p[0] == '\n');
        assert(s.drop_first() =~= q);
        assert(line_split(p) =~~= seq![Seq::<char>::empty()]);
    } else {
        assert(p1.len() > 0 && p1.last() == '\n');
        lemma_line_split_concat(p1, q);
        assert(s.drop_first() =~= p1 + q);
        if p[0] == '\n' {
            assert(line_split(s) =~~= seq![Seq::<char>::empty()] + line_split(p1 + q));
            assert(line_split(p) =~~= seq![Seq::<char>::empty()] + line_split(p1));
        } else {
            lemma_line_split_len(p1);
            let rp = line_split(p1);
            let rest = line_split(p1 + q);
            assert(rest =~~= rp + line_split(q));
            assert(rest.len() > 0);
            assert(rest[0] == rp[0]);
            assert(rest.drop_first() =~~= rp.drop_first() + line_split(q));
            assert(line_split(s) =~~= seq![seq![s[0]] + rest[0]] + rest.drop_first());
            assert(line_split(p) =~~= seq![seq![p[0]] + rp[0]] + rp.drop_first());
        }
    }
}

/// Splits a text into its lines.
pub fn split_lines(s: &str) -> (r: Vec<String>)
    ensures
        r.deep_view() == line_split(s@),
{
    let n = s.unicode_len();
    let mut r: Vec<String> = Vec::new();
    let mut start: usize = 0;
    let mut i: usize = 0;
    proof {
        assert(r.deep_view() =~~= Seq::<Seq<char>>::empty());
        assert(s@.subrange(0, n as int) =~= s@);
    }
    while i < n
        invariant
            0 <= start <= i <= n,
            n == s@.len(),
            forall|k: int| start <= k < i ==> s@[k] != '\n',
            line_split(s@) =~~= r.deep_view() + line_split(s@.subrange(start as int, n as int)),
        decreases n - i,
    {
        if s.get_char(i) == '\n' {
            let line = s.substring_char(start, i).to_owned();
            proof {
                let tail = s@.subrange(start as int, n as int);
                let cur = s@.subrange(start as int, i as int);
                assert(tail =~= (cur + seq!['\n']) + s@.subrange(i as int + 1, n as int));
                if i as int + 1 == n as int {
                    assert(tail =~= cur + seq!['\n']);
                    lemma_line_split_terminated(cur);
                } else {
                    lemma_line_split_concat(cur + seq!['\n'], s@.subrange(i as int + 1, n as int));
                    lemma_line_split_terminated(cur);
                }
                assert(r.deep_view().push(cur) =~~= r.deep_view() + seq![cur]);
            }
            r.push(line);
            start = i + 1;
        }
        i = i + 1;
    }
    if start < n {
        let line = s.substring_char(start, n).to_owned();
        proof {
            lemma_line_split_single(s@.subrange(start as int, n as int));
            assert(r.deep_view().push(s@.subrange(start as int, n as int)) =~~= r.deep_view()
                + seq![s@.subrange(start as int, n as int)]);
        }
        r.push(line);
    } else {
        proof {
            assert(s@.subrange(start as int, n as int) =~= Seq::<char>::empty());
            assert(r.deep_view() + line_split(Seq::<char>::empty()) =~~= r.deep_view());
        }
    }
    proof {
        assert(r.deep_view() =~~= line_split(s@));
    }
    r
}

/// The pieces joined with `sep` between consecutive pieces.
pub open spec fn join_with(parts: Seq<Seq<char>>, sep: Seq<char>) -> Seq<char>
    decreases parts.len(),
{
    if parts.len() == 0 {
        Seq::empty()
    } else if parts.len() == 1 {
        parts[0]
    } else {
        join_with(parts.drop_last(), sep) + sep + parts.last()
    }
}

/// Joins the strings from position `from` on with a separator between
/// consecutive entries.
pub fn join_from(parts: &Vec<String>, from: usize, sep: &str) -> (r: String)
    requires
        from <= parts@.len(),
    ensures
        r@ == join_with(parts.deep_view().subrange(from as int, parts@.len() as int), sep@),
{
    let mut r = String::new();
    let mut i: usize = from;
    while i < parts.len()
        invariant
            from <= i <= parts@.len(),
            r@ == join_with(parts.deep_view().subrange(from as int, i as int), sep@),
        decreases parts@.len() - i,
    {
        if i > from {
            r.append(sep);
        }
        r.append(parts[i].as_str());
        proof {
            let dv = parts.deep_view();
            assert(dv.subrange(from as int, i as int + 1).drop_last() =~~= dv.subrange(
                from as int,
                i as int,
            ));
            assert(dv.subrange(from as int, i as int + 1).last() == dv[i as int]);
        }
        i = i + 1;
    }
    r
}

/// Joins all the strings with a separator between consecutive entries.
pub fn join_strings(parts: &Vec<String>, sep: &str) -> (r: String)
    ensures
        r@ == join_with(parts.deep_view(), sep@),
{
    let r = join_from(parts, 0, sep);
    proof {
        assert(parts.deep_view().subrange(0, parts@.len() as int) =~~= parts.deep_view());
    }
    r
}

} // verus!
