//! The monitor expression language: `OR` of `AND` of `name operator value`
//! atoms, evaluated against a list of parameter entries. Evaluation is total:
//! a malformed atom, or one that names an absent parameter, is false.
//!
//! Numeric kinds compare as unsigned 64-bit values: an `i64` parameter, and a
//! literal that starts with `-`, are read through their two's-complement
//! unsigned form, and a value that does not parse counts as zero.
use vstd::prelude::*;
use crate::monitor::SolanaMatchParamEntry;
use crate::number::{as_unsigned, parse_i64, parse_i64_spec, parse_u64, parse_u64_spec, to_unsigned};
use crate::text::{
    chars_of, contains_chars, contains_seq, ends_with_chars, same_chars, split_by, split_chars,
    split_words, starts_with_chars, str_is, trim, trim_chars, words,
};

verus! {

/// A parameter seen as plain values: its name, value and kind.
pub type ParamView = (Seq<char>, Seq<char>, Seq<char>);

/// The parameters seen as plain values.
pub open spec fn params_view(args: Seq<SolanaMatchParamEntry>) -> Seq<ParamView> {
    args.map_values(|p: SolanaMatchParamEntry| (p.name@, p.value@, p.kind@))
}

/// The index of the first parameter named `name`, searching from `i`.
pub open spec fn param_from(args: Seq<ParamView>, name: Seq<char>, i: int) -> Option<int>
    decreases args.len() - i,
{
    if i < 0 || i >= args.len() {
        None
    } else if args[i].0 == name {
        Some(i)
    } else {
        param_from(args, name, i + 1)
    }
}

/// The index of the first parameter named `name`.
pub open spec fn param_index(args: Seq<ParamView>, name: Seq<char>) -> Option<int> {
    param_from(args, name, 0)
}

/// Whether `kind` names an integer kind.
pub open spec fn is_numeric_kind(kind: Seq<char>) -> bool {
    kind == "u8"@ || kind == "u16"@ || kind == "u32"@ || kind == "u64"@ || kind == "u128"@ || kind
        == "usize"@ || kind == "i64"@
}

/// Whether `kind` names a textual kind.
pub open spec fn is_text_kind(kind: Seq<char>) -> bool {
    kind == "string"@ || kind == "pubkey"@
}

/// The unsigned reading of a parameter value of a numeric kind.
pub open spec fn param_number(kind: Seq<char>, value: Seq<char>) -> u64 {
    if kind == "i64"@ {
        match parse_i64_spec(value) {
            Some(x) => as_unsigned(x),
            None => 0,
        }
    } else {
        match parse_u64_spec(value) {
            Some(x) => x,
            None => 0,
        }
    }
}

/// The unsigned reading of a literal on the right of a numeric comparison.
pub open spec fn literal_number(lit: Seq<char>) -> u64 {
    if lit.len() > 0 && lit[0] == '-' {
        match parse_i64_spec(lit) {
            Some(x) => as_unsigned(x),
            None => 0,
        }
    } else {
        match parse_u64_spec(lit) {
            Some(x) => x,
            None => 0,
        }
    }
}

/// What a relational operator says of two numbers.
pub open spec fn numeric_holds(op: Seq<char>, a: u64, b: u64) -> bool {
    if op == ">"@ {
        a > b
    } else if op == ">="@ {
        a >= b
    } else if op == "<"@ {
        a < b
    } else if op == "<="@ {
        a <= b
    } else if op == "=="@ {
        a == b
    } else if op == "!="@ {
        a != b
    } else {
        false
    }
}

/// What a textual operator says of a value and a literal.
pub open spec fn text_holds(op: Seq<char>, value: Seq<char>, lit: Seq<char>) -> bool {
    if op == "=="@ {
        value == lit
    } else if op == "!="@ {
        value != lit
    } else if op == "starts_with"@ {
        lit.is_prefix_of(value)
    } else if op == "ends_with"@ {
        lit.is_suffix_of(value)
    } else if op == "contains"@ {
        contains_seq(value, lit)
    } else {
        false
    }
}

/// What `value op lit` says for a parameter of the given kind.
pub open spec fn comparison_holds(kind: Seq<char>, value: Seq<char>, op: Seq<char>, lit: Seq<char>) -> bool {
    if is_numeric_kind(kind) {
        numeric_holds(op, param_number(kind, value), literal_number(lit))
    } else if is_text_kind(kind) {
        text_holds(op, value, lit)
    } else {
        false
    }
}

/// Whether the atom `cond` (`name op value`, possibly in parentheses) holds.
pub open spec fn atom_holds(cond: Seq<char>, args: Seq<ParamView>) -> bool {
    let parts = words(trim(trim(cond, false), true));
    parts.len() == 3 && match param_index(args, parts[0]) {
        Some(k) => comparison_holds(args[k].2, args[k].1, parts[1], parts[2]),
        None => false,
    }
}

/// Whether every atom of the `AND` group `g` holds.
pub open spec fn group_holds(g: Seq<char>, args: Seq<ParamView>) -> bool {
    let atoms = split_by(trim(g, false), " AND "@);
    forall|j: int| 0 <= j < atoms.len() ==> #[trigger] atom_holds(atoms[j], args)
}

/// Whether the expression `e` holds: some `OR` group of it holds.
pub open spec fn expression_holds(e: Seq<char>, args: Seq<ParamView>) -> bool {
    let groups = split_by(e, " OR "@);
    exists|i: int| 0 <= i < groups.len() && #[trigger] group_holds(groups[i], args)
}

/// The index of the first parameter named `name`.
pub fn find_param(args: &Vec<SolanaMatchParamEntry>, name: &Vec<char>) -> (r: Option<usize>)
    ensures
        r matches Some(k) ==> k < args.len() && param_index(params_view(args@), name@) == Some(k as int),
        r is None ==> param_index(params_view(args@), name@) is None,
{
    let mut i: usize = 0;
    while i < args.len()
        invariant
            i <= args.len(),
            param_from(params_view(args@), name@, i as int) == param_index(params_view(args@), name@),
        decreases args.len() - i,
    {
        let n = chars_of(args[i].name.as_str());
        if same_chars(&n, name) {
            return Some(i);
        }
        i = i + 1;
    }
    None
}

fn is_op(op: &Vec<char>, lit: &str) -> (r: bool)
    ensures
        r == (op@ == lit@),
{
    let l = chars_of(lit);
    same_chars(op, &l)
}

fn numeric_kind(kind: &str) -> (r: bool)
    ensures
        r == is_numeric_kind(kind@),
{
    str_is(kind, "u8") || str_is(kind, "u16") || str_is(kind, "u32") || str_is(kind, "u64")
        || str_is(kind, "u128") || str_is(kind, "usize") || str_is(kind, "i64")
}

fn text_kind(kind: &str) -> (r: bool)
    ensures
        r == is_text_kind(kind@),
{
    str_is(kind, "string") || str_is(kind, "pubkey")
}

/// Evaluates `value op lit` for a parameter of the given kind.
pub fn compare(kind: &str, value: &str, op: &Vec<char>, lit: &Vec<char>) -> (r: bool)
    ensures
        r == comparison_holds(kind@, value@, op@, lit@),
{
    if numeric_kind(kind) {
        let v = chars_of(value);
        let a: u64 = if str_is(kind, "i64") {
            match parse_i64(&v) {
                Some(x) => to_unsigned(x),
                None => 0,
            }
        } else {
            match parse_u64(&v) {
                Some(x) => x,
                None => 0,
            }
        };
        let b: u64 = if lit.len() > 0 && lit[0] == '-' {
            match parse_i64(lit) {
                Some(x) => to_unsigned(x),
                None => 0,
            }
        } else {
            match parse_u64(lit) {
                Some(x) => x,
                None => 0,
            }
        };
        if is_op(op, ">") {
            a > b
        } else if is_op(op, ">=") {
            a >= b
        } else if is_op(op, "<") {
            a < b
        } else if is_op(op, "<=") {
            a <= b
        } else if is_op(op, "==") {
            a == b
        } else if is_op(op, "!=") {
            a != b
        } else {
            false
        }
    } else if text_kind(kind) {
        let v = chars_of(value);
        if is_op(op, "==") {
            same_chars(&v, lit)
        } else if is_op(op, "!=") {
            !same_chars(&v, lit)
        } else if is_op(op, "starts_with") {
            starts_with_chars(&v, lit)
        } else if is_op(op, "ends_with") {
            ends_with_chars(&v, lit)
        } else if is_op(op, "contains") {
            contains_chars(&v, lit)
        } else {
            false
        }
    } else {
        false
    }
}

/// Evaluates one atom.
pub fn evaluate_atom(cond: &Vec<char>, args: &Vec<SolanaMatchParamEntry>) -> (r: bool)
    ensures
        r == atom_holds(cond@, params_view(args@)),
{
    let spaced = trim_chars(cond, false);
    let clean = trim_chars(&spaced, true);
    let parts = split_words(&clean);
    let ghost pv = parts@.map_values(|p: Vec<char>| p@);
    if parts.len() != 3 {
        return false;
    }
    assert(pv[0] == parts@[0]@ && pv[1] == parts@[1]@ && pv[2] == parts@[2]@);
    match find_param(args, &parts[0]) {
        Some(k) => compare(args[k].kind.as_str(), args[k].value.as_str(), &parts[1], &parts[2]),
        None => false,
    }
}

/// Evaluates one `AND` group.
pub fn evaluate_group(g: &Vec<char>, args: &Vec<SolanaMatchParamEntry>) -> (r: bool)
    ensures
        r == group_holds(g@, params_view(args@)),
{
    let t = trim_chars(g, false);
    let sep = chars_of(" AND ");
    proof {
        reveal_strlit(" AND ");
    }
    let atoms = split_chars(&t, &sep);
    let ghost av = atoms@.map_values(|p: Vec<char>| p@);
    let mut j: usize = 0;
    while j < atoms.len()
        invariant
            j <= atoms.len(),
            av == atoms@.map_values(|p: Vec<char>| p@),
            av == split_by(trim(g@, false), " AND "@),
            forall|k: int| 0 <= k < j ==> #[trigger] atom_holds(av[k], params_view(args@)),
        decreases atoms.len() - j,
    {
        assert(av[j as int] == atoms@[j as int]@);
        if !evaluate_atom(&atoms[j], args) {
            return false;
        }
        j = j + 1;
    }
    true
}

/// Evaluates the expression `expression` against `args`.
pub fn evaluate(expression: &str, args: &Vec<SolanaMatchParamEntry>) -> (r: bool)
    ensures
        r == expression_holds(expression@, params_view(args@)),
{
    let e = chars_of(expression);
    let sep = chars_of(" OR ");
    proof {
        reveal_strlit(" OR ");
    }
    let groups = split_chars(&e, &sep);
    let ghost gv = groups@.map_values(|p: Vec<char>| p@);
    let mut i: usize = 0;
    while i < groups.len()
        invariant
            i <= groups.len(),
            gv == groups@.map_values(|p: Vec<char>| p@),
            gv == split_by(expression@, " OR "@),
            forall|k: int| 0 <= k < i ==> !#[trigger] group_holds(gv[k], params_view(args@)),
        decreases groups.len() - i,
    {
        assert(gv[i as int] == groups@[i as int]@);
        if evaluate_group(&groups[i], args) {
            return true;
        }
        i = i + 1;
    }
    false
}

} // verus!
