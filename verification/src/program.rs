//! Programs: source text compiled into an expression, then executed against a
//! context.
//!
//! The source language is a dotted path of identifiers, such as `data.value`:
//! an identifier names a variable, and each further identifier selects a field
//! of a map.

use std::sync::Arc;
use vstd::prelude::*;

use crate::context::{without_resolvers, Context};
use crate::error::{ExecutionError, ParseError};
use crate::expr::{plain_eval, possible_eval, result_view, Expression};
use crate::value::Value;

verus! {

/// A character that can begin an identifier.
pub open spec fn is_ident_start(c: char) -> bool {
    ('a' <= c && c <= 'z') || ('A' <= c && c <= 'Z') || c == '_'
}

/// A character that can continue an identifier.
pub open spec fn is_ident_continue(c: char) -> bool {
    is_ident_start(c) || ('0' <= c && c <= '9')
}

/// An identifier: a letter or `_`, then letters, digits or `_`.
pub open spec fn is_identifier(t: Seq<char>) -> bool {
    &&& t.len() > 0
    &&& is_ident_start(t[0])
    &&& forall|j: int| 0 <= j < t.len() ==> is_ident_continue(#[trigger] t[j])
}

/// Whether position `i` of `s` begins a segment of a dotted path.
pub open spec fn starts_segment(s: Seq<char>, i: int) -> bool {
    i == 0 || s[i - 1] == '.'
}

/// Whether the character at `i` cannot stand there in a dotted path.
pub open spec fn bad_at(s: Seq<char>, i: int) -> bool {
    if starts_segment(s, i) {
        !is_ident_start(s[i])
    } else {
        !(is_ident_continue(s[i]) || s[i] == '.')
    }
}

/// Whether `s` is a dotted path of identifiers.
pub open spec fn is_path(s: Seq<char>) -> bool {
    &&& s.len() > 0
    &&& forall|i: int| 0 <= i < s.len() ==> !bad_at(s, i)
    &&& s.last() != '.'
}

/// Whether `p` is where `s` stops being a dotted path: the first character that
/// cannot stand where it stands, or the end of the text when the text is empty
/// or ends with a dot.
pub open spec fn error_position(s: Seq<char>, p: int) -> bool {
    &&& 0 <= p <= s.len()
    &&& forall|j: int| 0 <= j < p ==> !bad_at(s, j)
    &&& p < s.len() ==> bad_at(s, p)
    &&& p == s.len() ==> (s.len() == 0 || s.last() == '.')
}

/// The text of an expression written as a dotted path.
pub open spec fn dotted(e: Expression) -> Seq<char>
    decreases e,
{
    match e {
        Expression::Ident(n) => n@,
        Expression::Member(inner, field) => dotted(*inner) + seq!['.'] + field@,
    }
}

/// Whether every name in `e` is an identifier.
pub open spec fn names_are_identifiers(e: Expression) -> bool
    decreases e,
{
    match e {
        Expression::Ident(n) => is_identifier(n@),
        Expression::Member(inner, field) => names_are_identifiers(*inner) && is_identifier(field@),
    }
}

fn is_ident_start_char(c: char) -> (r: bool)
    ensures
        r == is_ident_start(c),
{
    ('a' <= c && c <= 'z') || ('A' <= c && c <= 'Z') || c == '_'
}

fn is_ident_continue_char(c: char) -> (r: bool)
    ensures
        r == is_ident_continue(c),
{
    is_ident_start_char(c) || ('0' <= c && c <= '9')
}

/// `name` appended to the path `prefix`, or standing alone when there is none.
fn extend_path(prefix: Option<Expression>, name: String) -> (r: Expression)
    ensures
        match prefix {
            Some(e) => r == Expression::Member(Box::new(e), Arc::new(name)),
            None => r == Expression::Ident(Arc::new(name)),
        },
{
    match prefix {
        Some(e) => Expression::Member(Box::new(e), Arc::new(name)),
        None => Expression::Ident(Arc::new(name)),
    }
}

/// A compiled program.
pub struct Program {
    pub expression: Expression,
}

impl Program {
    /// Compiles source text, which must be a dotted path of identifiers.
    pub fn compile(source: &str) -> (r: Result<Program, ParseError>)
        ensures
            r is Ok <==> is_path(source@),
            r matches Ok(p) ==> dotted(p.expression) == source@ && names_are_identifiers(
                p.expression,
            ),
            r matches Err(e) ==> error_position(source@, e.position as int),
    {
        let ghost s = source@;
        let n = source.unicode_len();
        let mut i: usize = 0;
        let mut start: usize = 0;
        let mut path: Option<Expression> = None;
        while i < n
            invariant
                s == source@,
                n == s.len(),
                start <= i <= n,
                start == 0 || s[start - 1] == '.',
                forall|j: int| 0 <= j < i ==> !bad_at(s, j),
                forall|j: int| start <= j < i ==> s[j] != '.',
                start < i ==> is_ident_start(s[start as int]),
                (start == 0) == (path is None),
                path matches Some(e) ==> dotted(e) == s.subrange(0, start - 1)
                    && names_are_identifiers(e),
            decreases n - i,
        {
            let c = source.get_char(i);
            if i == start {
                if !is_ident_start_char(c) {
                    proof {
                        assert(bad_at(s, i as int));
                    }
                    return Err(ParseError { position: i });
                }
            } else if c == '.' {
                let name = source.substring_char(start, i).to_owned();
                let ghost seg = s.subrange(start as int, i as int);
                proof {
                    assert(name@ == seg);
                    assert forall|j: int| 0 <= j < seg.len() implies is_ident_continue(
                        #[trigger] seg[j],
                    ) by {
                        assert(seg[j] == s[start + j]);
                        assert(!bad_at(s, start + j));
                        if j > 0 {
                            assert(s[start + j - 1] != '.');
                        }
                    }
                    assert(is_identifier(seg));
                }
                let ghost old_path = path;
                path = Some(extend_path(path, name));
                proof {
                    match old_path {
                        Some(e) => {
                            assert(s.subrange(0, start - 1) + seq!['.'] + seg =~= s.subrange(
                                0,
                                i as int,
                            ));
                        },
                        None => {
                            assert(seg =~= s.subrange(0, i as int));
                        },
                    }
                }
                start = i + 1;
            } else if !is_ident_continue_char(c) {
                proof {
                    assert(s[i - 1] != '.');
                    assert(bad_at(s, i as int));
                }
                return Err(ParseError { position: i });
            }
            i = i + 1;
        }
        if n == 0 || start == n {
            return Err(ParseError { position: n });
        }
        let name = source.substring_char(start, n).to_owned();
        let ghost seg = s.subrange(start as int, n as int);
        proof {
            assert(name@ == seg);
            assert forall|j: int| 0 <= j < seg.len() implies is_ident_continue(#[trigger] seg[j]) by {
                assert(seg[j] == s[start + j]);
                assert(!bad_at(s, start + j));
                if j > 0 {
                    assert(s[start + j - 1] != '.');
                }
            }
            assert(is_identifier(seg));
            if path is Some {
                    assert(s.subrange(0, start - 1) + seq!['.'] + seg =~= s);
            } else {
                    assert(seg =~= s);
            }
        }
        Ok(Program { expression: extend_path(path, name) })
    }

    /// The compiled expression.
    pub fn expression(&self) -> (r: &Expression)
        ensures
            *r == self.expression,
    {
        &self.expression
    }

    /// Evaluates the program against `context`.
    pub fn execute(&self, context: &Context) -> (r: Result<Value, ExecutionError>)
        ensures
            possible_eval(context.scopes(), self.expression, result_view(r)),
            without_resolvers(context.scopes()) ==> result_view(r) == plain_eval(
                context.scopes(),
                self.expression,
            ),
    {
        context.resolve(&self.expression)
    }
}

} // verus!
