//! The modifier parser shared by the `new` and `add` verbs: an optional
//! `optional`/`o` flag, then an optional `reference`/`r` flag followed by
//! two line numbers.
//!
//! `spec_parse_type` fixes, for every token list, either the parsed kind
//! and the position of the first unconsumed token, or the exact message
//! shown to the operator.

use vstd::prelude::*;

use crate::textfmt::{dec_val, is_usize_digits, parse_usize, str_eq};

verus! {

/// What kind of note a command asks for, with the 1-based source line
/// range when an excerpt was requested.
#[derive(Debug, Clone, Copy, PartialEq, Eq, Structural)]
pub enum NoteType {
    Necessary,
    Optional,
    NecessaryWithReference(usize, usize),
    OptionalWithReference(usize, usize),
}

impl NoteType {
    /// Whether the note goes to the optional list.
    pub open spec fn is_optional_kind(&self) -> bool {
        self is Optional || self is OptionalWithReference
    }

    /// Whether the note goes to the optional list.
    pub fn is_optional(&self) -> (r: bool)
        ensures
            r == self.is_optional_kind(),
    {
        match self {
            NoteType::Optional => true,
            NoteType::OptionalWithReference(_, _) => true,
            _ => false,
        }
    }
}

/// Reads the modifiers starting at token `from`: either the note kind and
/// the next token position, or the error message for the operator.
pub open spec fn spec_parse_type(toks: Seq<Seq<char>>, from: int) -> Result<
    (NoteType, int),
    Seq<char>,
> {
    if from >= toks.len() {
        Err("No text in note"@)
    } else {
        let optional = toks[from] == "optional"@ || toks[from] == "o"@;
        let p = if optional {
            from + 1
        } else {
            from
        };
        if p >= toks.len() {
            Err("No text in note"@)
        } else {
            let reference = toks[p] == "reference"@ || toks[p] == "r"@;
            if reference {
                if p + 1 >= toks.len() {
                    Err("No first number in reference"@)
                } else if !is_usize_digits(toks[p + 1]) {
                    Err("Incorrect first number in reference"@)
                } else if p + 2 >= toks.len() {
                    Err("No second number in reference"@)
                } else if !is_usize_digits(toks[p + 2]) {
                    Err("Incorrect second number in reference"@)
                } else {
                    let f = dec_val(toks[p + 1]) as usize;
                    let s = dec_val(toks[p + 2]) as usize;
                    if optional {
                        Ok((NoteType::OptionalWithReference(f, s), p + 3))
                    } else {
                        Ok((NoteType::NecessaryWithReference(f, s), p + 3))
                    }
                }
            } else if optional {
                Ok((NoteType::Optional, p))
            } else {
                Ok((NoteType::Necessary, p))
            }
        }
    }
}

/// Reads the modifiers starting at token `from`.
pub fn parse_type(tokens: &Vec<String>, from: usize) -> (r: Result<(NoteType, usize), String>)
    ensures
        match r {
            Ok(p) => spec_parse_type(tokens.deep_view(), from as int) == Ok::<
                (NoteType, int),
                Seq<char>,
            >((p.0, p.1 as int)) && from <= p.1 <= tokens@.len(),
            Err(m) => spec_parse_type(tokens.deep_view(), from as int) == Err::<
                (NoteType, int),
                Seq<char>,
            >(m@),
        },
{
    let ghost toks = tokens.deep_view();
    if from >= tokens.len() {
        return Err("No text in note".to_owned());
    }
    proof {
        assert(toks[from as int] == tokens@[from as int]@);
    }
    let optional = str_eq(tokens[from].as_str(), "optional") || str_eq(
        tokens[from].as_str(),
        "o",
    );
    let p = if optional {
        from + 1
    } else {
        from
    };
    if p >= tokens.len() {
        return Err("No text in note".to_owned());
    }
    proof {
        assert(toks[p as int] == tokens@[p as int]@);
    }
    let reference = str_eq(tokens[p].as_str(), "reference") || str_eq(tokens[p].as_str(), "r");
    if reference {
        if p + 1 >= tokens.len() {
            return Err("No first number in reference".to_owned());
        }
        proof {
            assert(toks[p as int + 1] == tokens@[p as int + 1]@);
        }
        let f = match parse_usize(tokens[p + 1].as_str()) {
            None => {
                return Err("Incorrect first number in reference".to_owned());
            },
            Some(f) => f,
        };
        if p + 2 >= tokens.len() {
            return Err("No second number in reference".to_owned());
        }
        proof {
            assert(toks[p as int + 2] == tokens@[p as int + 2]@);
        }
        let s = match parse_usize(tokens[p + 2].as_str()) {
            None => {
                return Err("Incorrect second number in reference".to_owned());
            },
            Some(s) => s,
        };
        if optional {
            Ok((NoteType::OptionalWithReference(f, s), p + 3))
        } else {
            Ok((NoteType::NecessaryWithReference(f, s), p + 3))
        }
    } else if optional {
        Ok((NoteType::Optional, p))
    } else {
        Ok((NoteType::Necessary, p))
    }
}

} // verus!
