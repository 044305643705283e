//! Types of the language and the resolver from type annotations to types.
use vstd::prelude::*;

use crate::chars::str_equals;

verus! {

/// A type as written in a declaration.
#[derive(Debug, PartialEq)]
pub enum Type {
    Int8,
    Int16,
    Int32,
    Int64,
    Int128,
    Float16,
    Float32,
    Float64,
    Float128,
    String,
    Boolean,
    Void,
    Array(Box<Type>),
    UserDefinedType { name: String },
}

/// A type as a mathematical value.
pub enum TypeView {
    Int8,
    Int16,
    Int32,
    Int64,
    Int128,
    Float16,
    Float32,
    Float64,
    Float128,
    String,
    Boolean,
    Void,
    Array(Box<TypeView>),
    UserDefinedType(Seq<char>),
}

pub open spec fn type_view(t: Type) -> TypeView
    decreases t,
{
    match t {
        Type::Int8 => TypeView::Int8,
        Type::Int16 => TypeView::Int16,
        Type::Int32 => TypeView::Int32,
        Type::Int64 => TypeView::Int64,
        Type::Int128 => TypeView::Int128,
        Type::Float16 => TypeView::Float16,
        Type::Float32 => TypeView::Float32,
        Type::Float64 => TypeView::Float64,
        Type::Float128 => TypeView::Float128,
        Type::String => TypeView::String,
        Type::Boolean => TypeView::Boolean,
        Type::Void => TypeView::Void,
        Type::Array(inner) => TypeView::Array(Box::new(type_view(*inner))),
        Type::UserDefinedType { name } => TypeView::UserDefinedType(name@),
    }
}

impl View for Type {
    type V = TypeView;

    open spec fn view(&self) -> TypeView {
        type_view(*self)
    }
}

impl Clone for Type {
    fn clone(&self) -> (r: Self)
        ensures
            r@ == self@,
        decreases self,
    {
        match self {
            Type::Int8 => Type::Int8,
            Type::Int16 => Type::Int16,
            Type::Int32 => Type::Int32,
            Type::Int64 => Type::Int64,
            Type::Int128 => Type::Int128,
            Type::Float16 => Type::Float16,
            Type::Float32 => Type::Float32,
            Type::Float64 => Type::Float64,
            Type::Float128 => Type::Float128,
            Type::String => Type::String,
            Type::Boolean => Type::Boolean,
            Type::Void => Type::Void,
            Type::Array(inner) => Type::Array(Box::new((**inner).clone())),
            Type::UserDefinedType { name } => Type::UserDefinedType { name: name.clone() },
        }
    }
}

/// The built-in type spelled by `s`, if any.
pub open spec fn builtin_type(s: Seq<char>) -> Option<TypeView> {
    if s == seq!['i', '8'] {
        Some(TypeView::Int8)
    } else if s == seq!['i', '1', '6'] {
        Some(TypeView::Int16)
    } else if s == seq!['i', '3', '2'] {
        Some(TypeView::Int32)
    } else if s == seq!['i', '6', '4'] {
        Some(TypeView::Int64)
    } else if s == seq!['i', '1', '2', '8'] {
        Some(TypeView::Int128)
    } else if s == seq!['f', '1', '6'] {
        Some(TypeView::Float16)
    } else if s == seq!['f', '3', '2'] {
        Some(TypeView::Float32)
    } else if s == seq!['f', '6', '4'] {
        Some(TypeView::Float64)
    } else if s == seq!['f', '1', '2', '8'] {
        Some(TypeView::Float128)
    } else if s == seq!['s', 't', 'r'] {
        Some(TypeView::String)
    } else if s == seq!['b', 'o', 'o', 'l'] {
        Some(TypeView::Boolean)
    } else if s == seq!['v', 'o', 'i', 'd'] {
        Some(TypeView::Void)
    } else {
        None
    }
}

/// The prefix of an array type annotation.
pub open spec fn array_prefix() -> Seq<char> {
    seq!['a', 'r', 'r', 'a', 'y', '[']
}

/// A character that may stand between the brackets of an array annotation.
pub open spec fn type_text_char(c: char) -> bool {
    ('a' <= c <= 'z') || ('A' <= c <= 'Z') || ('0' <= c <= '9') || c == '_' || c == '['
        || c == ']'
}

/// A character of a type name: a letter, a digit or `_`.
pub open spec fn name_char(c: char) -> bool {
    ('a' <= c <= 'z') || ('A' <= c <= 'Z') || ('0' <= c <= '9') || c == '_'
}

/// `s` is `array[`, then at least one character, then `]`.
pub open spec fn array_shape(s: Seq<char>) -> bool {
    &&& s.len() >= 8
    &&& s.subrange(0, 6) == array_prefix()
    &&& s[s.len() - 1] == ']'
}

/// What the array pattern matches: the array shape, with only letters,
/// digits, `_`, `[` and `]` between the outer brackets.
pub open spec fn array_pattern(s: Seq<char>) -> bool {
    &&& array_shape(s)
    &&& forall|i: int| 6 <= i < s.len() - 1 ==> type_text_char(#[trigger] s[i])
}

/// Well-formed annotation text: a non-empty name of letters, digits and `_`,
/// or `array[`, well-formed text, `]`.
pub open spec fn type_text_wf(s: Seq<char>) -> bool
    decreases s.len(),
{
    ||| (s.len() > 0 && forall|i: int| 0 <= i < s.len() ==> name_char(#[trigger] s[i]))
    ||| (array_shape(s) && type_text_wf(s.subrange(6, s.len() - 1)))
}

/// An array annotation: the array pattern, with well-formed text between the
/// outer brackets.
pub open spec fn array_form(s: Seq<char>) -> bool {
    array_pattern(s) && type_text_wf(array_inner(s))
}

/// The text between the outer brackets of an array annotation.
pub open spec fn array_inner(s: Seq<char>) -> Seq<char> {
    s.subrange(6, s.len() - 1)
}

/// The type that the annotation `s` denotes: a built-in spelling, an array of
/// the type its inner text denotes, or else a user-defined type of that name.
pub open spec fn type_of_text(s: Seq<char>) -> TypeView
    decreases s.len(),
{
    match builtin_type(s) {
        Some(t) => t,
        None => if array_form(s) {
            TypeView::Array(Box::new(type_of_text(array_inner(s))))
        } else {
            TypeView::UserDefinedType(s)
        },
    }
}

/// The canonical annotation of a type.
pub open spec fn type_text(t: TypeView) -> Seq<char>
    decreases t,
{
    match t {
        TypeView::Int8 => seq!['i', '8'],
        TypeView::Int16 => seq!['i', '1', '6'],
        TypeView::Int32 => seq!['i', '3', '2'],
        TypeView::Int64 => seq!['i', '6', '4'],
        TypeView::Int128 => seq!['i', '1', '2', '8'],
        TypeView::Float16 => seq!['f', '1', '6'],
        TypeView::Float32 => seq!['f', '3', '2'],
        TypeView::Float64 => seq!['f', '6', '4'],
        TypeView::Float128 => seq!['f', '1', '2', '8'],
        TypeView::String => seq!['s', 't', 'r'],
        TypeView::Boolean => seq!['b', 'o', 'o', 'l'],
        TypeView::Void => seq!['v', 'o', 'i', 'd'],
        TypeView::Array(inner) => array_prefix() + type_text(*inner) + seq![']'],
        TypeView::UserDefinedType(name) => name,
    }
}

/// The types whose canonical annotation resolves back to them: no
/// user-defined name is a built-in spelling or has the array form, and the
/// annotation of an element type is well-formed.
pub open spec fn text_round_trips(t: TypeView) -> bool
    decreases t,
{
    match t {
        TypeView::UserDefinedType(name) => builtin_type(name) is None && !array_form(name),
        TypeView::Array(inner) => text_round_trips(*inner) && type_text_wf(type_text(*inner)),
        _ => true,
    }
}

/// Well-formed text is non-empty and holds only letters, digits, `_`, `[`
/// and `]`.
pub proof fn lemma_wf_chars(s: Seq<char>)
    requires
        type_text_wf(s),
    ensures
        s.len() > 0,
        forall|i: int| 0 <= i < s.len() ==> type_text_char(#[trigger] s[i]),
    decreases s.len(),
{
    if !(s.len() > 0 && forall|i: int| 0 <= i < s.len() ==> name_char(#[trigger] s[i])) {
        let inner = s.subrange(6, s.len() - 1);
        lemma_wf_chars(inner);
        assert forall|i: int| 0 <= i < s.len() implies type_text_char(#[trigger] s[i]) by {
            if i < 6 {
                assert(s[i] == s.subrange(0, 6)[i]);
            } else if i < s.len() - 1 {
                assert(s[i] == inner[i - 6]);
            }
        }
    }
}

/// Resolving the canonical annotation of a type gives the type back, for
/// every type whose annotation is not taken by another reading.
pub proof fn law_type_text_round_trip(t: TypeView)
    requires
        text_round_trips(t),
    ensures
        type_of_text(type_text(t)) == t,
    decreases t,
{
    if let TypeView::Array(inner) = t {
        let x = type_text(*inner);
        let s = type_text(t);
        assert(s == array_prefix() + x + seq![']']);
        assert(s.subrange(0, 6) == array_prefix());
        assert(array_inner(s) == x);
        lemma_wf_chars(x);
        assert forall|i: int| 6 <= i < s.len() - 1 implies type_text_char(#[trigger] s[i]) by {
            assert(s[i] == x[i - 6]);
        }
        assert(builtin_type(s) is None) by {
            assert(s.len() >= 8);
        }
        law_type_text_round_trip(*inner);
    }
}

/// The pattern of an array annotation over the whole text: `array[`, one or
/// more letters, digits, `_`, `[` or `]`, and `]`.
pub const ARRAY_TYPE_PATTERN: &'static str = "^array\\[[a-zA-Z0-9_\\[\\]]+\\]$";

/// Relies on `regex::Regex::new` to compile `pattern` and on
/// `regex::Regex::is_match` to test `text` against it. For the array pattern,
/// anchored at both ends (`^`, `$` without the multi-line flag match only at
/// the start and the end of the text), the text matches exactly when it has
/// the array pattern.
#[verifier::external_body]
fn regex_is_match(pattern: &str, text: &str) -> (r: bool)
    ensures
        pattern@ == ARRAY_TYPE_PATTERN@ ==> r == array_pattern(text@),
{
    match regex::Regex::new(pattern) {
        Ok(re) => re.is_match(text),
        Err(_) => false,
    }
}

/// Whether `c` may stand in a type name.
fn is_name_char(c: char) -> (r: bool)
    ensures
        r == name_char(c),
{
    ('a' <= c && c <= 'z') || ('A' <= c && c <= 'Z') || ('0' <= c && c <= '9') || c == '_'
}

/// Whether `s` is well-formed annotation text.
pub fn type_text_valid(s: &str) -> (r: bool)
    ensures
        r == type_text_wf(s@),
    decreases s@.len(),
{
    let n = s.unicode_len();
    let mut i: usize = 0;
    let mut all_name = n > 0;
    while i < n
        invariant
            n == s@.len(),
            i <= n,
            all_name == (n > 0 && forall|j: int| 0 <= j < i ==> name_char(#[trigger] s@[j])),
        decreases n - i,
    {
        if !is_name_char(s.get_char(i)) {
            all_name = false;
        }
        i = i + 1;
    }
    if all_name {
        return true;
    }
    if n >= 8 && str_equals(s.substring_char(0, 6), &['a', 'r', 'r', 'a', 'y', '[']) && s.get_char(
        n - 1,
    ) == ']' {
        return type_text_valid(s.substring_char(6, n - 1));
    }
    false
}

impl Type {
    /// Resolves a type annotation: the built-in spellings, `array[<inner>]`
    /// with well-formed inner text resolved in turn, and any other text as a
    /// user-defined type of that name. Every text resolves to some type.
    pub fn parse_type(type_str: String) -> (r: Type)
        ensures
            r@ == type_of_text(type_str@),
        decreases type_str@.len(),
    {
        let s = type_str.as_str();
        if str_equals(s, &['i', '8']) {
            return Type::Int8;
        }
        if str_equals(s, &['i', '1', '6']) {
            return Type::Int16;
        }
        if str_equals(s, &['i', '3', '2']) {
            return Type::Int32;
        }
        if str_equals(s, &['i', '6', '4']) {
            return Type::Int64;
        }
        if str_equals(s, &['i', '1', '2', '8']) {
            return Type::Int128;
        }
        if str_equals(s, &['f', '1', '6']) {
            return Type::Float16;
        }
        if str_equals(s, &['f', '3', '2']) {
            return Type::Float32;
        }
        if str_equals(s, &['f', '6', '4']) {
            return Type::Float64;
        }
        if str_equals(s, &['f', '1', '2', '8']) {
            return Type::Float128;
        }
        if str_equals(s, &['s', 't', 'r']) {
            return Type::String;
        }
        if str_equals(s, &['b', 'o', 'o', 'l']) {
            return Type::Boolean;
        }
        if str_equals(s, &['v', 'o', 'i', 'd']) {
            return Type::Void;
        }
        if regex_is_match(ARRAY_TYPE_PATTERN, s) {
            let n = s.unicode_len();
            let inner = s.substring_char(6, n - 1);
            if type_text_valid(inner) {
                return Type::Array(Box::new(Type::parse_type(inner.to_owned())));
            }
        }
        Type::UserDefinedType { name: type_str }
    }
}

} // verus!
