//! The descriptor grammar: pure text-to-type translation for the compact
//! strings that encode a field's type or a method's parameter and return
//! types. Parsing is total: a descriptor either is consumed exactly and
//! yields a structured type, or the whole parse fails — a partial parse is
//! never accepted.

use vstd::prelude::*;
use vstd::string::{StrSliceExecFns, StringExecFns};

use crate::error::Error;

verus! {

/// A parsed method descriptor: the parameter types and the return type.
#[derive(Debug, PartialEq)]
pub struct MethodType {
    pub parameter_types: Vec<FieldType>,
    pub return_type: ReturnType,
}

/// A parsed field type: a primitive kind, a named class type (held in
/// internal form, without the leading `L` and trailing `;`), or an array of
/// a nested field type.
#[derive(Debug, PartialEq)]
pub enum FieldType {
    Byte,
    Char,
    Double,
    Float,
    Int,
    Long,
    Class { name: String },
    Short,
    Boolean,
    Array { value: Box<FieldType> },
}

/// A method's return type: a field type, or void.
#[derive(Debug, PartialEq)]
pub enum ReturnType {
    Field { value: FieldType },
    Void,
}

/// A character that may begin an internal-form class name.
pub open spec fn is_name_start(c: char) -> bool {
    ('a' <= c && c <= 'z') || ('A' <= c && c <= 'Z') || c == '/' || c == '$' || c == '_'
}

/// A character that may continue an internal-form class name.
pub open spec fn is_name_char(c: char) -> bool {
    is_name_start(c) || ('0' <= c && c <= '9')
}

/// A primitive type code.
pub open spec fn is_primitive_code(c: char) -> bool {
    c == 'B' || c == 'C' || c == 'D' || c == 'F' || c == 'I' || c == 'J' || c == 'S' || c == 'Z'
}

/// The end of the longest run of class-name characters from `i` on.
pub open spec fn name_end(s: Seq<char>, i: int) -> int
    recommends
        0 <= i <= s.len(),
    decreases s.len() - i when 0 <= i <= s.len()
{
    if i < s.len() && is_name_char(s[i]) {
        name_end(s, i + 1)
    } else {
        i
    }
}

pub proof fn lemma_name_end_bounds(s: Seq<char>, i: int)
    requires
        0 <= i <= s.len(),
    ensures
        i <= name_end(s, i) <= s.len(),
    decreases s.len() - i,
{
    if i < s.len() && is_name_char(s[i]) {
        lemma_name_end_bounds(s, i + 1);
    }
}

/// Where a field type beginning at `i` ends, when the grammar accepts one
/// there: one past a primitive code, one past the `;` closing a class name,
/// or the end of the element type of an array marker.
pub open spec fn field_type_end(s: Seq<char>, i: int) -> Option<int>
    recommends
        0 <= i <= s.len(),
    decreases s.len() - i when 0 <= i <= s.len()
{
    if i >= s.len() {
        None
    } else if is_primitive_code(s[i]) {
        Some(i + 1)
    } else if s[i] == 'L' {
        if i + 1 < s.len() && is_name_start(s[i + 1]) {
            let j = name_end(s, i + 2);
            if j < s.len() && s[j] == ';' {
                Some(j + 1)
            } else {
                None
            }
        } else {
            None
        }
    } else if s[i] == '[' {
        field_type_end(s, i + 1)
    } else {
        None
    }
}

pub proof fn lemma_field_type_end_bounds(s: Seq<char>, i: int)
    requires
        0 <= i <= s.len(),
    ensures
        match field_type_end(s, i) {
            Some(j) => i < j <= s.len(),
            None => true,
        },
    decreases s.len() - i,
{
    if i < s.len() {
        if s[i] == 'L' && i + 1 < s.len() && is_name_start(s[i + 1]) {
            lemma_name_end_bounds(s, i + 2);
        }
        if s[i] == '[' {
            lemma_field_type_end_bounds(s, i + 1);
        }
    }
}

/// The position after the longest run of complete field types from `i` on;
/// the parameter list of a method descriptor is such a run.
pub open spec fn params_end(s: Seq<char>, i: int) -> int
    recommends
        0 <= i <= s.len(),
    decreases s.len() - i when 0 <= i <= s.len() via params_end_decreases
{
    match field_type_end(s, i) {
        Some(j) => params_end(s, j),
        None => i,
    }
}

#[via_fn]
proof fn params_end_decreases(s: Seq<char>, i: int) {
    if 0 <= i <= s.len() {
        lemma_field_type_end_bounds(s, i);
    }
}

/// Where a method descriptor beginning at `i` ends, when the grammar
/// accepts one there: a parenthesized run of field types, then a field type
/// or the void marker.
pub open spec fn method_type_end(s: Seq<char>, i: int) -> Option<int>
    recommends
        0 <= i <= s.len(),
{
    if i < s.len() && s[i] == '(' {
        let p = params_end(s, i + 1);
        if p < s.len() && s[p] == ')' {
            if p + 1 < s.len() && s[p + 1] == 'V' {
                Some(p + 2)
            } else {
                field_type_end(s, p + 1)
            }
        } else {
            None
        }
    } else {
        None
    }
}

/// The span `[i, j)` of `s` reads as exactly the field type `ft`.
pub open spec fn field_type_matches(s: Seq<char>, i: int, ft: FieldType, j: int) -> bool
    decreases ft,
{
    match ft {
        FieldType::Byte => 0 <= i < s.len() && s[i] == 'B' && j == i + 1,
        FieldType::Char => 0 <= i < s.len() && s[i] == 'C' && j == i + 1,
        FieldType::Double => 0 <= i < s.len() && s[i] == 'D' && j == i + 1,
        FieldType::Float => 0 <= i < s.len() && s[i] == 'F' && j == i + 1,
        FieldType::Int => 0 <= i < s.len() && s[i] == 'I' && j == i + 1,
        FieldType::Long => 0 <= i < s.len() && s[i] == 'J' && j == i + 1,
        FieldType::Boolean => 0 <= i < s.len() && s[i] == 'Z' && j == i + 1,
        FieldType::Short => 0 <= i < s.len() && s[i] == 'S' && j == i + 1,
        FieldType::Class { name } => {
            &&& 0 <= i
            &&& i + 2 < j <= s.len()
            &&& s[i] == 'L'
            &&& s[j - 1] == ';'
            &&& name@ == s.subrange(i + 1, j - 1)
            &&& is_name_start(s[i + 1])
            &&& forall|m: int| i + 2 <= m < j - 1 ==> is_name_char(#[trigger] s[m])
        },
        FieldType::Array { value } => 0 <= i < s.len() && s[i] == '[' && field_type_matches(
            s,
            i + 1,
            *value,
            j,
        ),
    }
}

/// The span `[i, j)` of `s` reads as exactly the field types `ps`, one
/// after the other.
pub open spec fn params_match(s: Seq<char>, i: int, ps: Seq<FieldType>, j: int) -> bool
    decreases ps.len(),
{
    if ps.len() == 0 {
        j == i
    } else {
        exists|m: int|
            #![trigger field_type_matches(s, i, ps[0], m)]
            field_type_matches(s, i, ps[0], m) && params_match(s, m, ps.drop_first(), j)
    }
}

/// The span `[i, j)` of `s` reads as exactly the return type `rt`.
pub open spec fn return_type_matches(s: Seq<char>, i: int, rt: ReturnType, j: int) -> bool {
    match rt {
        ReturnType::Void => 0 <= i < s.len() && s[i] == 'V' && j == i + 1,
        ReturnType::Field { value } => field_type_matches(s, i, value, j),
    }
}

/// The span `[i, j)` of `s` reads as exactly the method type `mt`.
pub open spec fn method_type_matches(s: Seq<char>, i: int, mt: MethodType, j: int) -> bool {
    &&& 0 <= i < s.len()
    &&& s[i] == '('
    &&& exists|p: int|
        #![trigger params_match(s, i + 1, mt.parameter_types@, p)]
        {
            &&& params_match(s, i + 1, mt.parameter_types@, p)
            &&& 0 <= p < s.len()
            &&& s[p] == ')'
            &&& return_type_matches(s, p + 1, mt.return_type, j)
        }
}

proof fn lemma_params_match_push(s: Seq<char>, i: int, ps: Seq<FieldType>, p: int, x: FieldType, q: int)
    requires
        params_match(s, i, ps, p),
        field_type_matches(s, p, x, q),
    ensures
        params_match(s, i, ps.push(x), q),
    decreases ps.len(),
{
    assert(ps.push(x)[0] == if ps.len() == 0 { x } else { ps[0] });
    if ps.len() == 0 {
        assert(ps.push(x).drop_first() =~= Seq::<FieldType>::empty());
        assert(field_type_matches(s, i, ps.push(x)[0], q) && params_match(
            s,
            q,
            ps.push(x).drop_first(),
            q,
        ));
    } else {
        let m = choose|m: int|
            #![trigger field_type_matches(s, i, ps[0], m)]
            field_type_matches(s, i, ps[0], m) && params_match(s, m, ps.drop_first(), p);
        lemma_params_match_push(s, m, ps.drop_first(), p, x, q);
        assert(ps.push(x).drop_first() =~= ps.drop_first().push(x));
        assert(field_type_matches(s, i, ps.push(x)[0], m) && params_match(
            s,
            m,
            ps.push(x).drop_first(),
            q,
        ));
    }
}

fn is_name_start_char(c: char) -> (r: bool)
    ensures
        r == is_name_start(c),
{
    ('a' <= c && c <= 'z') || ('A' <= c && c <= 'Z') || c == '/' || c == '$' || c == '_'
}

fn is_name_char_exec(c: char) -> (r: bool)
    ensures
        r == is_name_char(c),
{
    is_name_start_char(c) || ('0' <= c && c <= '9')
}

/// Reads one field type beginning at `i`; the result says exactly where the
/// grammar accepts one there and where it does not.
fn parse_field_type_at(s: &str, i: usize) -> (r: Option<(FieldType, usize)>)
    requires
        i <= s@.len(),
    ensures
        match r {
            Some((ft, j)) => {
                &&& field_type_end(s@, i as int) == Some(j as int)
                &&& field_type_matches(s@, i as int, ft, j as int)
                &&& i < j <= s@.len()
            },
            None => field_type_end(s@, i as int) is None,
        },
    decreases s@.len() - i,
{
    let n = s.unicode_len();
    if i >= n {
        return None;
    }
    let c = s.get_char(i);
    if c == 'B' {
        Some((FieldType::Byte, i + 1))
    } else if c == 'C' {
        Some((FieldType::Char, i + 1))
    } else if c == 'D' {
        Some((FieldType::Double, i + 1))
    } else if c == 'F' {
        Some((FieldType::Float, i + 1))
    } else if c == 'I' {
        Some((FieldType::Int, i + 1))
    } else if c == 'J' {
        Some((FieldType::Long, i + 1))
    } else if c == 'S' {
        Some((FieldType::Short, i + 1))
    } else if c == 'Z' {
        Some((FieldType::Boolean, i + 1))
    } else if c == 'L' {
        if i + 1 < n && is_name_start_char(s.get_char(i + 1)) {
            let mut k: usize = i + 2;
            while k < n && is_name_char_exec(s.get_char(k))
                invariant
                    i + 2 <= k <= n,
                    n == s@.len(),
                    name_end(s@, i + 2) == name_end(s@, k as int),
                    forall|m: int| i + 2 <= m < k ==> is_name_char(#[trigger] s@[m]),
                decreases n - k,
            {
                k = k + 1;
            }
            proof {
                assert(name_end(s@, i + 2) == k as int);
            }
            if k < n && s.get_char(k) == ';' {
                let name = s.substring_char(i + 1, k).to_owned();
                proof {
                    assert(name@ =~= s@.subrange(i + 1, k as int));
                }
                Some((FieldType::Class { name }, k + 1))
            } else {
                None
            }
        } else {
            None
        }
    } else if c == '[' {
        match parse_field_type_at(s, i + 1) {
            Some((inner, j)) => Some((FieldType::Array { value: Box::new(inner) }, j)),
            None => None,
        }
    } else {
        None
    }
}

/// Parses a full field descriptor. Succeeds exactly when the grammar
/// accepts the whole text as one field type, and then returns the type tree
/// that spans it; anything else — a partial parse included — is rejected.
pub fn parse_field_type(parameter_descriptor: &str) -> (r: Result<FieldType, Error>)
    ensures
        r is Ok <==> field_type_end(parameter_descriptor@, 0) == Some(
            parameter_descriptor@.len() as int,
        ),
        r is Ok ==> field_type_matches(
            parameter_descriptor@,
            0,
            r->Ok_0,
            parameter_descriptor@.len() as int,
        ),
        r is Err ==> r->Err_0.message@ == "invalid parameter descriptor: "@
            + parameter_descriptor@,
{
    let n = parameter_descriptor.unicode_len();
    match parse_field_type_at(parameter_descriptor, 0) {
        Some((ft, j)) if j == n => Ok(ft),
        _ => {
            let mut m = "invalid parameter descriptor: ".to_owned();
            m.append(parameter_descriptor);
            Err(Error { message: m })
        },
    }
}

/// Parses a full method descriptor. Succeeds exactly when the grammar
/// accepts the whole text as a parenthesized parameter list followed by a
/// return type, and then returns the type that spans it.
pub fn parse_method_descriptor(method_descriptor: &str) -> (r: Result<MethodType, Error>)
    ensures
        r is Ok <==> method_type_end(method_descriptor@, 0) == Some(
            method_descriptor@.len() as int,
        ),
        r is Ok ==> method_type_matches(
            method_descriptor@,
            0,
            r->Ok_0,
            method_descriptor@.len() as int,
        ),
        r is Err ==> r->Err_0.message@ == "invalid method descriptor: "@ + method_descriptor@,
{
    let n = method_descriptor.unicode_len();
    let parsed = parse_method_descriptor_at(method_descriptor);
    match parsed {
        Some((mt, j)) if j == n => Ok(mt),
        _ => {
            let mut m = "invalid method descriptor: ".to_owned();
            m.append(method_descriptor);
            Err(Error { message: m })
        },
    }
}

/// Reads one method descriptor from the start of `s`; the result says
/// exactly where the grammar accepts one and where it does not.
fn parse_method_descriptor_at(s: &str) -> (r: Option<(MethodType, usize)>)
    ensures
        match r {
            Some((mt, j)) => {
                &&& method_type_end(s@, 0) == Some(j as int)
                &&& method_type_matches(s@, 0, mt, j as int)
                &&& j <= s@.len()
            },
            None => method_type_end(s@, 0) is None,
        },
{
    let n = s.unicode_len();
    if n == 0 || s.get_char(0) != '(' {
        return None;
    }
    let mut parameter_types: Vec<FieldType> = Vec::new();
    let mut p: usize = 1;
    proof {
        assert(params_match(s@, 1, parameter_types@, 1 as int));
    }
    loop
        invariant
            1 <= p <= n,
            n == s@.len(),
            s@[0] == '(',
            params_match(s@, 1, parameter_types@, p as int),
            params_end(s@, 1) == params_end(s@, p as int),
        ensures
            1 <= p <= n,
            params_match(s@, 1, parameter_types@, p as int),
            params_end(s@, 1) == params_end(s@, p as int),
            field_type_end(s@, p as int) is None,
        decreases n - p,
    {
        match parse_field_type_at(s, p) {
            Some((ft, q)) => {
                proof {
                    lemma_params_match_push(
                        s@,
                        1,
                        parameter_types@,
                        p as int,
                        ft,
                        q as int,
                    );
                }
                parameter_types.push(ft);
                p = q;
            },
            None => {
                break;
            },
        }
    }
    proof {
        assert(params_end(s@, p as int) == p as int);
    }
    if p < n && s.get_char(p) == ')' {
        if p + 1 < n && s.get_char(p + 1) == 'V' {
            let mt = MethodType { parameter_types, return_type: ReturnType::Void };
            proof {
                assert(params_match(s@, 1, mt.parameter_types@, p as int) && 0 <= p < s@.len()
                    && s@[p as int] == ')' && return_type_matches(
                    s@,
                    p + 1,
                    mt.return_type,
                    p + 2,
                ));
            }
            Some((mt, p + 2))
        } else {
            match parse_field_type_at(s, p + 1) {
                Some((ft, j)) => {
                    let mt = MethodType {
                        parameter_types,
                        return_type: ReturnType::Field { value: ft },
                    };
                    proof {
                        assert(params_match(s@, 1, mt.parameter_types@, p as int) && 0 <= p
                            < s@.len() && s@[p as int] == ')' && return_type_matches(
                            s@,
                            p + 1,
                            mt.return_type,
                            j as int,
                        ));
                    }
                    Some((mt, j))
                },
                None => None,
            }
        }
    } else {
        None
    }
}


/// Whether the grammar accepts the whole of `t` as one field descriptor.
pub open spec fn field_descriptor_ok(t: Seq<char>) -> bool {
    field_type_end(t, 0) == Some(t.len() as int)
}

/// Whether the grammar accepts the whole of `t` as one method descriptor.
pub open spec fn method_descriptor_ok(t: Seq<char>) -> bool {
    method_type_end(t, 0) == Some(t.len() as int)
}

/// Whether an accepted method descriptor's return type is void. A method
/// descriptor ends with `V` exactly when its return part is the void
/// marker, since no field type ends with that letter.
pub open spec fn method_returns_void(t: Seq<char>) -> bool {
    t.len() > 0 && t[t.len() - 1] == 'V'
}

/// A field type's span ends in a primitive code or the `;` that closes a
/// class name — never in the void marker.
pub proof fn lemma_field_type_last_char(s: Seq<char>, i: int, ft: FieldType, j: int)
    requires
        field_type_matches(s, i, ft, j),
    ensures
        i < j <= s.len(),
        is_primitive_code(s[j - 1]) || s[j - 1] == ';',
        s[j - 1] != 'V',
    decreases ft,
{
    match ft {
        FieldType::Array { value } => {
            lemma_field_type_last_char(s, i + 1, *value, j);
        },
        _ => {},
    }
}

} // verus!
