//! Whitespace tokenization of one line of operator input.
//!
//! The command protocol is token-oriented: the verb, its modifiers and the
//! free note text are separated by runs of blanks. `tokens_of` fixes the
//! meaning of that split once; the command parser and its contracts both
//! speak in terms of it.

use vstd::prelude::*;

verus! {

/// The characters the protocol treats as token separators.
pub open spec fn is_space(c: char) -> bool {
    c == ' ' || c == '\t' || c == '\r' || c == '\n'
}

/// The whitespace-separated tokens of `s`, in order, each non-empty.
pub open spec fn tokens_of(s: Seq<char>) -> Seq<Seq<char>>
    decreases s.len(),
{
    if s.len() == 0 {
        Seq::empty()
    } else if is_space(s[0]) {
        tokens_of(s.drop_first())
    } else {
        let rest = tokens_of(s.drop_first());
        if s.len() > 1 && !is_space(s[1]) {
            seq![seq![s[0]] + rest[0]] + rest.drop_first()
        } else {
            seq![seq![s[0]]] + rest
        }
    }
}

/// A text starting with a non-blank character has a first token.
pub proof fn lemma_tokens_head(s: Seq<char>)
    requires
        s.len() > 0,
        !is_space(s[0]),
    ensures
        tokens_of(s).len() >= 1,
    decreases s.len(),
{
    if s.len() > 1 && !is_space(s[1]) {
        lemma_tokens_head(s.drop_first());
    }
}

/// A non-empty blank-free text is one single token.
pub proof fn lemma_tokens_single(a: Seq<char>)
    requires
        a.len() > 0,
        forall|i: int| 0 <= i < a.len() ==> !is_space(#[trigger] a[i]),
    ensures
        tokens_of(a) =~~= seq![a],
    decreases a.len(),
{
    if a.len() == 1 {
        reveal_with_fuel(tokens_of, 2);
        assert(tokens_of(a) =~~= seq![seq![a[0]]]);
        assert(seq![a[0]] =~= a);
    } else {
        lemma_tokens_single(a.drop_first());
        assert(seq![a[0]] + a.drop_first() =~= a);
    }
}

/// Tokens distribute over concatenation when the boundary does not cut a
/// token in two.
pub proof fn lemma_tokens_concat(a: Seq<char>, b: Seq<char>)
    requires
        b.len() == 0 || is_space(b[0]),
    ensures
        tokens_of(a + b) =~~= tokens_of(a) + tokens_of(b),
    decreases a.len(),
{
    if a.len() == 0 {
        assert(a + b =~= b);
    } else {
        let s = a + b;
        let a1 = a.drop_first();
        lemma_tokens_concat(a1, b);
        assert(s.drop_first() =~= a1 + b);
        if is_space(a[0]) {
        } else if a1.len() == 0 {
            if b.len() == 0 {
                assert(s =~= a);
            } else {
                assert(s.len() > 1 && is_space(s[1]));
            }
        } else if is_space(a1[0]) {
            assert(s.len() > 1 && is_space(s[1]));
        } else {
            lemma_tokens_head(a1);
            let ta1 = tokens_of(a1);
            let rest = tokens_of(a1 + b);
            assert(rest =~~= ta1 + tokens_of(b));
            assert(rest[0] == ta1[0]);
            assert(rest.drop_first() =~~= ta1.drop_first() + tokens_of(b));
            assert(tokens_of(s) =~~= seq![seq![s[0]] + rest[0]] + rest.drop_first());
            assert(tokens_of(a) =~~= seq![seq![a[0]] + ta1[0]] + ta1.drop_first());
        }
    }
}

/// Whether `c` separates tokens.
pub fn is_space_char(c: char) -> (r: bool)
    ensures
        r == is_space(c),
{
    c == ' ' || c == '\t' || c == '\r' || c == '\n'
}

/// Splits a line of input into its whitespace-separated tokens.
pub fn tokenize(s: &str) -> (r: Vec<String>)
    ensures
        r.deep_view() == tokens_of(s@),
{
    let n = s.unicode_len();
    let mut r: Vec<String> = Vec::new();
    let mut i: usize = 0;
    proof {
        assert(r.deep_view() =~~= Seq::<Seq<char>>::empty());
        assert(s@.subrange(0, n as int) =~= s@);
    }
    while i < n
        invariant
            0 <= i <= n,
            n == s@.len(),
            tokens_of(s@) =~~= r.deep_view() + tokens_of(s@.subrange(i as int, n as int)),
        decreases n - i,
    {
        if is_space_char(s.get_char(i)) {
            proof {
                assert(s@.subrange(i as int, n as int).drop_first() =~= s@.subrange(
                    i as int + 1,
                    n as int,
                ));
            }
            i = i + 1;
        } else {
            let mut j = i + 1;
            while j < n && !is_space_char(s.get_char(j))
                invariant
                    i < j <= n,
                    n == s@.len(),
                    forall|k: int| i <= k < j ==> !is_space(#[trigger] s@[k]),
                decreases n - j,
            {
                j = j + 1;
            }
            let tok = s.substring_char(i, j).to_owned();
            proof {
                let a = s@.subrange(i as int, j as int);
                let b = s@.subrange(j as int, n as int);
                assert(s@.subrange(i as int, n as int) =~= a + b);
                lemma_tokens_concat(a, b);
                lemma_tokens_single(a);
                assert(r.deep_view().push(a) =~~= r.deep_view() + seq![a]);
            }
            r.push(tok);
            i = j;
        }
    }
    proof {
        assert(s@.subrange(n as int, n as int) =~= Seq::<char>::empty());
        assert(r.deep_view() =~~= tokens_of(s@));
    }
    r
}

} // verus!
