//! Resolving a flat type into a full one: each definition it names is
//! replaced by its (resolved) type, each generic parameter by its argument.
//!
//! Definitions may refer to each other; resolving them in turn gets deeper
//! only as long as a definition is still being resolved inside itself, so a
//! depth of as many expansions as there are definitions suffices for every
//! type that resolves at all. Deeper than that, the definitions form a cycle
//! and resolution is refused with `RecursiveTypedef`.
use vstd::prelude::*;

use crate::idl_parse_error::ToolboxIdlParseError;
use crate::idl_program_type::{program_types_view, ProgramTypeV, ToolboxIdlProgramType, strings_view};
use crate::idl_type_flat::{
    flat_fields_view,
    flat_view,
    FlatFieldsV,
    FlatV,
    ToolboxIdlTypeFlat,
    ToolboxIdlTypeFlatFields,
};
use crate::idl_type_full::{
    full_fields_view,
    full_seq_view,
    full_view,
    named_full_seq_view,
    variants_full_seq_view,
    FullFieldsV,
    FullV,
    ToolboxIdlTypeFull,
    ToolboxIdlTypeFullFields,
};
use crate::json::{str_eq, str_to_string};

verus! {

pub type FullResult = Result<FullV, ToolboxIdlParseError>;

pub type FullFieldsResult = Result<FullFieldsV, ToolboxIdlParseError>;

pub open spec fn full_result_view(r: Result<ToolboxIdlTypeFull, ToolboxIdlParseError>) -> FullResult {
    match r {
        Ok(t) => Ok(full_view(t)),
        Err(e) => Err(e),
    }
}

pub open spec fn full_fields_result_view(
    r: Result<ToolboxIdlTypeFullFields, ToolboxIdlParseError>,
) -> FullFieldsResult {
    match r {
        Ok(f) => Ok(full_fields_view(f)),
        Err(e) => Err(e),
    }
}

/// The index of the first definition named `name` among the first `n`.
pub open spec fn spec_find_typedef(typedefs: Seq<ProgramTypeV>, name: Seq<char>, n: nat) -> Option<
    int,
>
    decreases n,
{
    if n == 0 || n > typedefs.len() {
        None
    } else {
        match spec_find_typedef(typedefs, name, (n - 1) as nat) {
            Some(k) => Some(k),
            None => if typedefs[n - 1].name == name {
                Some(n - 1)
            } else {
                None
            },
        }
    }
}

/// The index of the first binding of `symbol` among the first `n`.
pub open spec fn spec_find_binding(bindings: Seq<(Seq<char>, FullV)>, symbol: Seq<char>, n: nat) -> Option<
    int,
>
    decreases n,
{
    if n == 0 || n > bindings.len() {
        None
    } else {
        match spec_find_binding(bindings, symbol, (n - 1) as nat) {
            Some(k) => Some(k),
            None => if bindings[n - 1].0 == symbol {
                Some(n - 1)
            } else {
                None
            },
        }
    }
}

/// Each generic parameter bound to the argument in the same position.
pub open spec fn spec_bind(symbols: Seq<Seq<char>>, args: Seq<FullV>) -> Seq<(Seq<char>, FullV)> {
    Seq::new(symbols.len(), |i: int| (symbols[i], args[i]))
}

/// The full type that a flat type resolves to, with the generic parameters
/// in `bindings`, the definitions in `typedefs`, and at most `fuel` nested
/// expansions of definitions.
pub open spec fn spec_hydrate(
    t: FlatV,
    bindings: Seq<(Seq<char>, FullV)>,
    typedefs: Seq<ProgramTypeV>,
    fuel: nat,
) -> FullResult
    decreases fuel, t, 0nat,
{
    match t {
        FlatV::Defined { name, generics } => match spec_find_typedef(
            typedefs,
            name,
            typedefs.len(),
        ) {
            None => Err(ToolboxIdlParseError::UnknownTypedef),
            Some(k) => {
                let typedef = typedefs[k];
                if generics.len() != typedef.generics.len() {
                    Err(ToolboxIdlParseError::GenericArity)
                } else {
                    match spec_hydrate_list(generics, bindings, typedefs, fuel, generics.len()) {
                        Err(e) => Err(e),
                        Ok(args) => if fuel == 0 {
                            Err(ToolboxIdlParseError::RecursiveTypedef)
                        } else {
                            spec_hydrate(
                                typedef.type_flat,
                                spec_bind(typedef.generics, args),
                                typedefs,
                                (fuel - 1) as nat,
                            )
                        },
                    }
                }
            },
        },
        FlatV::Generic { symbol } => match spec_find_binding(bindings, symbol, bindings.len()) {
            None => Err(ToolboxIdlParseError::UnknownGeneric),
            Some(k) => Ok(bindings[k].1),
        },
        FlatV::Option { prefix_bytes, content } => match spec_hydrate(
            *content,
            bindings,
            typedefs,
            fuel,
        ) {
            Err(e) => Err(e),
            Ok(c) => Ok(FullV::Option { prefix_bytes, content: Box::new(c) }),
        },
        FlatV::Vec { prefix_bytes, items } => match spec_hydrate(*items, bindings, typedefs, fuel) {
            Err(e) => Err(e),
            Ok(c) => Ok(FullV::Vec { prefix_bytes, items: Box::new(c) }),
        },
        FlatV::Array { items, length } => match spec_hydrate(*items, bindings, typedefs, fuel) {
            Err(e) => Err(e),
            Ok(c) => match spec_hydrate(*length, bindings, typedefs, fuel) {
                Err(e) => Err(e),
                Ok(FullV::Const { literal }) => Ok(FullV::Array { items: Box::new(c), length: literal }),
                Ok(_) => Err(ToolboxIdlParseError::ArrayLengthNotConst),
            },
        },
        FlatV::Struct { fields } => match spec_hydrate_fields(fields, bindings, typedefs, fuel) {
            Err(e) => Err(e),
            Ok(f) => Ok(FullV::Struct { fields: f }),
        },
        FlatV::Enum { prefix_bytes, variants } => match spec_hydrate_variants(
            variants,
            bindings,
            typedefs,
            fuel,
            variants.len(),
        ) {
            Err(e) => Err(e),
            Ok(vs) => Ok(FullV::Enum { prefix_bytes, variants: vs }),
        },
        FlatV::Padded { size_bytes, content } => match spec_hydrate(
            *content,
            bindings,
            typedefs,
            fuel,
        ) {
            Err(e) => Err(e),
            Ok(c) => Ok(FullV::Padded { size_bytes, content: Box::new(c) }),
        },
        FlatV::Const { literal } => Ok(FullV::Const { literal }),
        FlatV::Primitive { primitive } => Ok(FullV::Primitive { primitive }),
    }
}

/// The first `n` types resolved in order, stopping at the first failure.
pub open spec fn spec_hydrate_list(
    ts: Seq<FlatV>,
    bindings: Seq<(Seq<char>, FullV)>,
    typedefs: Seq<ProgramTypeV>,
    fuel: nat,
    n: nat,
) -> Result<Seq<FullV>, ToolboxIdlParseError>
    decreases fuel, ts, n,
{
    if n == 0 || n > ts.len() {
        Ok(Seq::empty())
    } else {
        match spec_hydrate_list(ts, bindings, typedefs, fuel, (n - 1) as nat) {
            Err(e) => Err(e),
            Ok(prev) => match spec_hydrate(ts[n - 1], bindings, typedefs, fuel) {
                Err(e) => Err(e),
                Ok(x) => Ok(prev.push(x)),
            },
        }
    }
}

/// The first `n` named fields resolved in order (their docs dropped).
pub open spec fn spec_hydrate_named(
    fields: Seq<(Seq<char>, Option<crate::json::JsonV>, FlatV)>,
    bindings: Seq<(Seq<char>, FullV)>,
    typedefs: Seq<ProgramTypeV>,
    fuel: nat,
    n: nat,
) -> Result<Seq<(Seq<char>, FullV)>, ToolboxIdlParseError>
    decreases fuel, fields, n,
{
    if n == 0 || n > fields.len() {
        Ok(Seq::empty())
    } else {
        match spec_hydrate_named(fields, bindings, typedefs, fuel, (n - 1) as nat) {
            Err(e) => Err(e),
            Ok(prev) => {
                proof {
                    assert(decreases_to!(fields => fields[n - 1]));
                }
                match spec_hydrate(fields[n - 1].2, bindings, typedefs, fuel) {
                    Err(e) => Err(e),
                    Ok(x) => Ok(prev.push((fields[n - 1].0, x))),
                }
            },
        }
    }
}

/// The first `n` unnamed fields resolved in order (their docs dropped).
pub open spec fn spec_hydrate_unnamed(
    fields: Seq<(Option<crate::json::JsonV>, FlatV)>,
    bindings: Seq<(Seq<char>, FullV)>,
    typedefs: Seq<ProgramTypeV>,
    fuel: nat,
    n: nat,
) -> Result<Seq<FullV>, ToolboxIdlParseError>
    decreases fuel, fields, n,
{
    if n == 0 || n > fields.len() {
        Ok(Seq::empty())
    } else {
        match spec_hydrate_unnamed(fields, bindings, typedefs, fuel, (n - 1) as nat) {
            Err(e) => Err(e),
            Ok(prev) => {
                proof {
                    assert(decreases_to!(fields => fields[n - 1]));
                }
                match spec_hydrate(fields[n - 1].1, bindings, typedefs, fuel) {
                    Err(e) => Err(e),
                    Ok(x) => Ok(prev.push(x)),
                }
            },
        }
    }
}

/// The first `n` enum variants resolved in order (their docs dropped).
pub open spec fn spec_hydrate_variants(
    variants: Seq<(Seq<char>, Option<crate::json::JsonV>, FlatFieldsV)>,
    bindings: Seq<(Seq<char>, FullV)>,
    typedefs: Seq<ProgramTypeV>,
    fuel: nat,
    n: nat,
) -> Result<Seq<(Seq<char>, FullFieldsV)>, ToolboxIdlParseError>
    decreases fuel, variants, n,
{
    if n == 0 || n > variants.len() {
        Ok(Seq::empty())
    } else {
        match spec_hydrate_variants(variants, bindings, typedefs, fuel, (n - 1) as nat) {
            Err(e) => Err(e),
            Ok(prev) => {
                proof {
                    assert(decreases_to!(variants => variants[n - 1]));
                }
                match spec_hydrate_fields(variants[n - 1].2, bindings, typedefs, fuel) {
                    Err(e) => Err(e),
                    Ok(f) => Ok(prev.push((variants[n - 1].0, f))),
                }
            },
        }
    }
}

/// A list of fields resolved.
pub open spec fn spec_hydrate_fields(
    f: FlatFieldsV,
    bindings: Seq<(Seq<char>, FullV)>,
    typedefs: Seq<ProgramTypeV>,
    fuel: nat,
) -> FullFieldsResult
    decreases fuel, f, 0nat,
{
    match f {
        FlatFieldsV::Nothing => Ok(FullFieldsV::Nothing),
        FlatFieldsV::Named(fields) => match spec_hydrate_named(
            fields,
            bindings,
            typedefs,
            fuel,
            fields.len(),
        ) {
            Err(e) => Err(e),
            Ok(fs) => Ok(FullFieldsV::Named(fs)),
        },
        FlatFieldsV::Unnamed(fields) => match spec_hydrate_unnamed(
            fields,
            bindings,
            typedefs,
            fuel,
            fields.len(),
        ) {
            Err(e) => Err(e),
            Ok(fs) => Ok(FullFieldsV::Unnamed(fs)),
        },
    }
}

/// A list resolved without failure has one type per entry.
pub proof fn lemma_hydrate_list_len(
    ts: Seq<FlatV>,
    bindings: Seq<(Seq<char>, FullV)>,
    typedefs: Seq<ProgramTypeV>,
    fuel: nat,
    n: nat,
)
    requires
        n <= ts.len(),
    ensures
        spec_hydrate_list(ts, bindings, typedefs, fuel, n) matches Ok(out) ==> out.len() == n,
    decreases n,
{
    if n > 0 {
        lemma_hydrate_list_len(ts, bindings, typedefs, fuel, (n - 1) as nat);
    }
}

/// Once resolving a list fails, resolving a longer prefix fails the same way.
pub proof fn lemma_hydrate_list_err_stable(
    ts: Seq<FlatV>,
    bindings: Seq<(Seq<char>, FullV)>,
    typedefs: Seq<ProgramTypeV>,
    fuel: nat,
    i: nat,
    n: nat,
)
    requires
        i <= n <= ts.len(),
        spec_hydrate_list(ts, bindings, typedefs, fuel, i) is Err,
    ensures
        spec_hydrate_list(ts, bindings, typedefs, fuel, n) == spec_hydrate_list(
            ts,
            bindings,
            typedefs,
            fuel,
            i,
        ),
    decreases n - i,
{
    if i < n {
        lemma_hydrate_list_err_stable(ts, bindings, typedefs, fuel, i, (n - 1) as nat);
    }
}

/// Once resolving named fields fails, resolving a longer prefix fails the same way.
pub proof fn lemma_hydrate_named_err_stable(
    fields: Seq<(Seq<char>, Option<crate::json::JsonV>, FlatV)>,
    bindings: Seq<(Seq<char>, FullV)>,
    typedefs: Seq<ProgramTypeV>,
    fuel: nat,
    i: nat,
    n: nat,
)
    requires
        i <= n <= fields.len(),
        spec_hydrate_named(fields, bindings, typedefs, fuel, i) is Err,
    ensures
        spec_hydrate_named(fields, bindings, typedefs, fuel, n) == spec_hydrate_named(
            fields,
            bindings,
            typedefs,
            fuel,
            i,
        ),
    decreases n - i,
{
    if i < n {
        lemma_hydrate_named_err_stable(fields, bindings, typedefs, fuel, i, (n - 1) as nat);
    }
}

/// Once resolving unnamed fields fails, resolving a longer prefix fails the same way.
pub proof fn lemma_hydrate_unnamed_err_stable(
    fields: Seq<(Option<crate::json::JsonV>, FlatV)>,
    bindings: Seq<(Seq<char>, FullV)>,
    typedefs: Seq<ProgramTypeV>,
    fuel: nat,
    i: nat,
    n: nat,
)
    requires
        i <= n <= fields.len(),
        spec_hydrate_unnamed(fields, bindings, typedefs, fuel, i) is Err,
    ensures
        spec_hydrate_unnamed(fields, bindings, typedefs, fuel, n) == spec_hydrate_unnamed(
            fields,
            bindings,
            typedefs,
            fuel,
            i,
        ),
    decreases n - i,
{
    if i < n {
        lemma_hydrate_unnamed_err_stable(fields, bindings, typedefs, fuel, i, (n - 1) as nat);
    }
}

/// Once resolving variants fails, resolving a longer prefix fails the same way.
pub proof fn lemma_hydrate_variants_err_stable(
    variants: Seq<(Seq<char>, Option<crate::json::JsonV>, FlatFieldsV)>,
    bindings: Seq<(Seq<char>, FullV)>,
    typedefs: Seq<ProgramTypeV>,
    fuel: nat,
    i: nat,
    n: nat,
)
    requires
        i <= n <= variants.len(),
        spec_hydrate_variants(variants, bindings, typedefs, fuel, i) is Err,
    ensures
        spec_hydrate_variants(variants, bindings, typedefs, fuel, n) == spec_hydrate_variants(
            variants,
            bindings,
            typedefs,
            fuel,
            i,
        ),
    decreases n - i,
{
    if i < n {
        lemma_hydrate_variants_err_stable(variants, bindings, typedefs, fuel, i, (n - 1) as nat);
    }
}

/// The position of the first definition named `name`.
fn find_typedef(typedefs: &Vec<ToolboxIdlProgramType>, name: &str) -> (r: Option<usize>)
    ensures
        match r {
            Some(k) => spec_find_typedef(program_types_view(typedefs@), name@, typedefs@.len())
                == Some(k as int) && k < typedefs@.len(),
            None => spec_find_typedef(program_types_view(typedefs@), name@, typedefs@.len())
                is None,
        },
{
    let ghost d = program_types_view(typedefs@);
    let mut i: usize = 0;
    while i < typedefs.len()
        invariant
            i <= typedefs.len(),
            d == program_types_view(typedefs@),
            spec_find_typedef(d, name@, i as nat) is None,
        decreases typedefs.len() - i,
    {
        if str_eq(typedefs[i].name.as_str(), name) {
            proof {
                lemma_find_typedef_found(d, name@, (i + 1) as nat, d.len());
            }
            return Some(i);
        }
        i = i + 1;
    }
    None
}

/// Once the first match lies among the first `i`, looking further finds it again.
pub proof fn lemma_find_typedef_found(typedefs: Seq<ProgramTypeV>, name: Seq<char>, i: nat, n: nat)
    requires
        i <= n <= typedefs.len(),
        spec_find_typedef(typedefs, name, i) is Some,
    ensures
        spec_find_typedef(typedefs, name, n) == spec_find_typedef(typedefs, name, i),
    decreases n - i,
{
    if i < n {
        lemma_find_typedef_found(typedefs, name, i, (n - 1) as nat);
    }
}

/// Once the first match lies among the first `i`, looking further finds it again.
pub proof fn lemma_find_binding_found(
    bindings: Seq<(Seq<char>, FullV)>,
    symbol: Seq<char>,
    i: nat,
    n: nat,
)
    requires
        i <= n <= bindings.len(),
        spec_find_binding(bindings, symbol, i) is Some,
    ensures
        spec_find_binding(bindings, symbol, n) == spec_find_binding(bindings, symbol, i),
    decreases n - i,
{
    if i < n {
        lemma_find_binding_found(bindings, symbol, i, (n - 1) as nat);
    }
}

/// The position of the first binding of `symbol`.
fn find_binding(bindings: &Vec<(String, ToolboxIdlTypeFull)>, symbol: &str) -> (r: Option<usize>)
    ensures
        match r {
            Some(k) => spec_find_binding(named_full_seq_view(bindings@), symbol@, bindings@.len())
                == Some(k as int) && k < bindings@.len(),
            None => spec_find_binding(named_full_seq_view(bindings@), symbol@, bindings@.len())
                is None,
        },
{
    let ghost b = named_full_seq_view(bindings@);
    let mut i: usize = 0;
    while i < bindings.len()
        invariant
            i <= bindings.len(),
            b == named_full_seq_view(bindings@),
            spec_find_binding(b, symbol@, i as nat) is None,
        decreases bindings.len() - i,
    {
        if str_eq(bindings[i].0.as_str(), symbol) {
            proof {
                lemma_find_binding_found(b, symbol@, (i + 1) as nat, b.len());
            }
            return Some(i);
        }
        i = i + 1;
    }
    None
}

/// Binds each generic parameter of a definition to its argument.
fn bind_generics(symbols: &Vec<String>, args: &Vec<ToolboxIdlTypeFull>) -> (r: Vec<
    (String, ToolboxIdlTypeFull),
>)
    requires
        symbols@.len() == args@.len(),
    ensures
        named_full_seq_view(r@) == spec_bind(strings_view(symbols@), full_seq_view(args@)),
{
    let mut out: Vec<(String, ToolboxIdlTypeFull)> = Vec::new();
    let mut i: usize = 0;
    while i < symbols.len()
        invariant
            i <= symbols.len(),
            symbols@.len() == args@.len(),
            out@.len() == i,
            forall|k: int|
                0 <= k < i ==> (#[trigger] out@[k]).0@ == symbols@[k]@ && full_view(out@[k].1)
                    == full_view(args@[k]),
        decreases symbols.len() - i,
    {
        out.push((str_to_string(symbols[i].as_str()), args[i].deep_clone()));
        i = i + 1;
    }
    proof {
        assert(named_full_seq_view(out@) =~= spec_bind(strings_view(symbols@), full_seq_view(args@)));
    }
    out
}

/// Resolves a flat type, with at most `fuel` nested expansions of definitions.
fn hydrate_rec(
    t: &ToolboxIdlTypeFlat,
    bindings: &Vec<(String, ToolboxIdlTypeFull)>,
    typedefs: &Vec<ToolboxIdlProgramType>,
    fuel: usize,
) -> (r: Result<ToolboxIdlTypeFull, ToolboxIdlParseError>)
    ensures
        full_result_view(r) == spec_hydrate(
            flat_view(*t),
            named_full_seq_view(bindings@),
            program_types_view(typedefs@),
            fuel as nat,
        ),
    decreases fuel, t, 0nat,
{
    let ghost b = named_full_seq_view(bindings@);
    let ghost d = program_types_view(typedefs@);
    match t {
        ToolboxIdlTypeFlat::Defined { name, generics } => {
            let k = match find_typedef(typedefs, name.as_str()) {
                None => {
                    return Err(ToolboxIdlParseError::UnknownTypedef);
                },
                Some(k) => k,
            };
            let typedef = &typedefs[k];
            proof {
                assert(d[k as int] == crate::idl_program_type::program_type_view(*typedef));
            }
            if generics.len() != typedef.generics.len() {
                return Err(ToolboxIdlParseError::GenericArity);
            }
            proof {
                assert(decreases_to!(*t => (*t)->Defined_generics));
                assert(flat_view(*t)->Defined_generics =~= crate::idl_type_flat::flat_seq_view(
                    generics@,
                ));
            }
            let args = match hydrate_list_rec(generics, bindings, typedefs, fuel) {
                Err(e) => {
                    return Err(e);
                },
                Ok(args) => args,
            };
            proof {
                lemma_hydrate_list_len(
                    crate::idl_type_flat::flat_seq_view(generics@),
                    b,
                    d,
                    fuel as nat,
                    generics@.len(),
                );
            }
            if fuel == 0 {
                return Err(ToolboxIdlParseError::RecursiveTypedef);
            }
            let inner_bindings = bind_generics(&typedef.generics, &args);
            hydrate_rec(&typedef.type_flat, &inner_bindings, typedefs, fuel - 1)
        },
        ToolboxIdlTypeFlat::Generic { symbol } => match find_binding(bindings, symbol.as_str()) {
            None => Err(ToolboxIdlParseError::UnknownGeneric),
            Some(k) => Ok(bindings[k].1.deep_clone()),
        },
        ToolboxIdlTypeFlat::Option { prefix_bytes, content } => {
            match hydrate_rec(content, bindings, typedefs, fuel) {
                Err(e) => Err(e),
                Ok(c) => Ok(ToolboxIdlTypeFull::Option { prefix_bytes: *prefix_bytes, content: Box::new(c) }),
            }
        },
        ToolboxIdlTypeFlat::Vec { prefix_bytes, items } => {
            match hydrate_rec(items, bindings, typedefs, fuel) {
                Err(e) => Err(e),
                Ok(c) => Ok(ToolboxIdlTypeFull::Vec { prefix_bytes: *prefix_bytes, items: Box::new(c) }),
            }
        },
        ToolboxIdlTypeFlat::Array { items, length } => {
            let c = match hydrate_rec(items, bindings, typedefs, fuel) {
                Err(e) => {
                    return Err(e);
                },
                Ok(c) => c,
            };
            match hydrate_rec(length, bindings, typedefs, fuel) {
                Err(e) => Err(e),
                Ok(ToolboxIdlTypeFull::Const { literal }) => Ok(
                    ToolboxIdlTypeFull::Array { items: Box::new(c), length: literal },
                ),
                Ok(_) => Err(ToolboxIdlParseError::ArrayLengthNotConst),
            }
        },
        ToolboxIdlTypeFlat::Struct { fields } => {
            match hydrate_fields_rec(fields, bindings, typedefs, fuel) {
                Err(e) => Err(e),
                Ok(f) => Ok(ToolboxIdlTypeFull::Struct { fields: f }),
            }
        },
        ToolboxIdlTypeFlat::Enum { prefix_bytes, variants } => {
            let ghost vs = flat_view(*t)->Enum_variants;
            let mut out: Vec<(String, ToolboxIdlTypeFullFields)> = Vec::new();
            proof {
                assert(variants_full_seq_view(out@) =~= Seq::<(Seq<char>, FullFieldsV)>::empty());
            }
            let mut i: usize = 0;
            while i < variants.len()
                invariant
                    i <= variants.len(),
                    out@.len() == i,
                    *t matches ToolboxIdlTypeFlat::Enum { variants: w, .. } && w == *variants,
                    vs == flat_view(*t)->Enum_variants,
                    vs.len() == variants@.len(),
                    b == named_full_seq_view(bindings@),
                    d == program_types_view(typedefs@),
                    spec_hydrate_variants(vs, b, d, fuel as nat, i as nat) == Ok::<
                        Seq<(Seq<char>, FullFieldsV)>,
                        ToolboxIdlParseError,
                    >(variants_full_seq_view(out@)),
                decreases variants.len() - i,
            {
                proof {
                    assert(decreases_to!(*t => (*t)->Enum_variants@[i as int].2));
                    assert(vs[i as int].2 == flat_fields_view(variants@[i as int].2));
                    assert(vs[i as int].0 == variants@[i as int].0@);
                }
                match hydrate_fields_rec(&variants[i].2, bindings, typedefs, fuel) {
                    Err(e) => {
                        proof {
                            lemma_hydrate_variants_err_stable(
                                vs,
                                b,
                                d,
                                fuel as nat,
                                (i + 1) as nat,
                                vs.len(),
                            );
                        }
                        return Err(e);
                    },
                    Ok(f) => {
                        let ghost prev = out@;
                        out.push((str_to_string(variants[i].0.as_str()), f));
                        proof {
                            assert(variants_full_seq_view(out@) =~= variants_full_seq_view(
                                prev,
                            ).push((variants@[i as int].0@, full_fields_view(f))));
                        }
                    },
                }
                i = i + 1;
            }
            let r = ToolboxIdlTypeFull::Enum { prefix_bytes: *prefix_bytes, variants: out };
            proof {
                assert(full_view(r)->Enum_variants =~= variants_full_seq_view(out@));
            }
            Ok(r)
        },
        ToolboxIdlTypeFlat::Padded { size_bytes, content } => {
            match hydrate_rec(content, bindings, typedefs, fuel) {
                Err(e) => Err(e),
                Ok(c) => Ok(ToolboxIdlTypeFull::Padded { size_bytes: *size_bytes, content: Box::new(c) }),
            }
        },
        ToolboxIdlTypeFlat::Const { literal } => Ok(ToolboxIdlTypeFull::Const { literal: *literal }),
        ToolboxIdlTypeFlat::Primitive { primitive } => Ok(
            ToolboxIdlTypeFull::Primitive { primitive: *primitive },
        ),
    }
}

/// Resolves a list of flat types in order, stopping at the first failure.
fn hydrate_list_rec(
    ts: &Vec<ToolboxIdlTypeFlat>,
    bindings: &Vec<(String, ToolboxIdlTypeFull)>,
    typedefs: &Vec<ToolboxIdlProgramType>,
    fuel: usize,
) -> (r: Result<Vec<ToolboxIdlTypeFull>, ToolboxIdlParseError>)
    ensures
        match r {
            Ok(out) => spec_hydrate_list(
                crate::idl_type_flat::flat_seq_view(ts@),
                named_full_seq_view(bindings@),
                program_types_view(typedefs@),
                fuel as nat,
                ts@.len(),
            ) == Ok::<Seq<FullV>, ToolboxIdlParseError>(full_seq_view(out@)),
            Err(e) => spec_hydrate_list(
                crate::idl_type_flat::flat_seq_view(ts@),
                named_full_seq_view(bindings@),
                program_types_view(typedefs@),
                fuel as nat,
                ts@.len(),
            ) == Err::<Seq<FullV>, ToolboxIdlParseError>(e),
        },
    decreases fuel, ts, 1nat,
{
    let ghost xs = crate::idl_type_flat::flat_seq_view(ts@);
    let ghost b = named_full_seq_view(bindings@);
    let ghost d = program_types_view(typedefs@);
    let mut out: Vec<ToolboxIdlTypeFull> = Vec::new();
    proof {
        assert(full_seq_view(out@) =~= Seq::<FullV>::empty());
    }
    let mut i: usize = 0;
    while i < ts.len()
        invariant
            i <= ts.len(),
            out@.len() == i,
            xs == crate::idl_type_flat::flat_seq_view(ts@),
            b == named_full_seq_view(bindings@),
            d == program_types_view(typedefs@),
            spec_hydrate_list(xs, b, d, fuel as nat, i as nat) == Ok::<
                Seq<FullV>,
                ToolboxIdlParseError,
            >(full_seq_view(out@)),
        decreases ts.len() - i,
    {
        proof {
            assert(decreases_to!(*ts => ts@[i as int]));
        }
        match hydrate_rec(&ts[i], bindings, typedefs, fuel) {
            Err(e) => {
                proof {
                    lemma_hydrate_list_err_stable(xs, b, d, fuel as nat, (i + 1) as nat, xs.len());
                }
                return Err(e);
            },
            Ok(x) => {
                let ghost prev = out@;
                out.push(x);
                proof {
                    assert(full_seq_view(out@) =~= full_seq_view(prev).push(full_view(x)));
                }
            },
        }
        i = i + 1;
    }
    Ok(out)
}

/// Resolves a list of flat fields.
fn hydrate_fields_rec(
    f: &ToolboxIdlTypeFlatFields,
    bindings: &Vec<(String, ToolboxIdlTypeFull)>,
    typedefs: &Vec<ToolboxIdlProgramType>,
    fuel: usize,
) -> (r: Result<ToolboxIdlTypeFullFields, ToolboxIdlParseError>)
    ensures
        full_fields_result_view(r) == spec_hydrate_fields(
            flat_fields_view(*f),
            named_full_seq_view(bindings@),
            program_types_view(typedefs@),
            fuel as nat,
        ),
    decreases fuel, f, 0nat,
{
    let ghost b = named_full_seq_view(bindings@);
    let ghost d = program_types_view(typedefs@);
    match f {
        ToolboxIdlTypeFlatFields::Nothing => Ok(ToolboxIdlTypeFullFields::Nothing),
        ToolboxIdlTypeFlatFields::Named(fields) => {
            let ghost fs = flat_fields_view(*f)->Named_0;
            let mut out: Vec<(String, ToolboxIdlTypeFull)> = Vec::new();
            proof {
                assert(named_full_seq_view(out@) =~= Seq::<(Seq<char>, FullV)>::empty());
            }
            let mut i: usize = 0;
            while i < fields.len()
                invariant
                    i <= fields.len(),
                    out@.len() == i,
                    *f == ToolboxIdlTypeFlatFields::Named(*fields),
                    fs == flat_fields_view(*f)->Named_0,
                    fs.len() == fields@.len(),
                    b == named_full_seq_view(bindings@),
                    d == program_types_view(typedefs@),
                    spec_hydrate_named(fs, b, d, fuel as nat, i as nat) == Ok::<
                        Seq<(Seq<char>, FullV)>,
                        ToolboxIdlParseError,
                    >(named_full_seq_view(out@)),
                decreases fields.len() - i,
            {
                proof {
                    assert(decreases_to!(*f => (*f)->Named_0@[i as int].2));
                    assert(fs[i as int].2 == flat_view(fields@[i as int].2));
                    assert(fs[i as int].0 == fields@[i as int].0@);
                }
                match hydrate_rec(&fields[i].2, bindings, typedefs, fuel) {
                    Err(e) => {
                        proof {
                            lemma_hydrate_named_err_stable(
                                fs,
                                b,
                                d,
                                fuel as nat,
                                (i + 1) as nat,
                                fs.len(),
                            );
                        }
                        return Err(e);
                    },
                    Ok(x) => {
                        let ghost prev = out@;
                        out.push((str_to_string(fields[i].0.as_str()), x));
                        proof {
                            assert(named_full_seq_view(out@) =~= named_full_seq_view(prev).push(
                                (fields@[i as int].0@, full_view(x)),
                            ));
                        }
                    },
                }
                i = i + 1;
            }
            let r = ToolboxIdlTypeFullFields::Named(out);
            proof {
                assert(full_fields_view(r)->Named_0 =~= named_full_seq_view(out@));
            }
            Ok(r)
        },
        ToolboxIdlTypeFlatFields::Unnamed(fields) => {
            let ghost fs = flat_fields_view(*f)->Unnamed_0;
            let mut out: Vec<ToolboxIdlTypeFull> = Vec::new();
            proof {
                assert(full_seq_view(out@) =~= Seq::<FullV>::empty());
            }
            let mut i: usize = 0;
            while i < fields.len()
                invariant
                    i <= fields.len(),
                    out@.len() == i,
                    *f == ToolboxIdlTypeFlatFields::Unnamed(*fields),
                    fs == flat_fields_view(*f)->Unnamed_0,
                    fs.len() == fields@.len(),
                    b == named_full_seq_view(bindings@),
                    d == program_types_view(typedefs@),
                    spec_hydrate_unnamed(fs, b, d, fuel as nat, i as nat) == Ok::<
                        Seq<FullV>,
                        ToolboxIdlParseError,
                    >(full_seq_view(out@)),
                decreases fields.len() - i,
            {
                proof {
                    assert(decreases_to!(*f => (*f)->Unnamed_0@[i as int].1));
                    assert(fs[i as int].1 == flat_view(fields@[i as int].1));
                }
                match hydrate_rec(&fields[i].1, bindings, typedefs, fuel) {
                    Err(e) => {
                        proof {
                            lemma_hydrate_unnamed_err_stable(
                                fs,
                                b,
                                d,
                                fuel as nat,
                                (i + 1) as nat,
                                fs.len(),
                            );
                        }
                        return Err(e);
                    },
                    Ok(x) => {
                        let ghost prev = out@;
                        out.push(x);
                        proof {
                            assert(full_seq_view(out@) =~= full_seq_view(prev).push(full_view(x)));
                        }
                    },
                }
                i = i + 1;
            }
            let r = ToolboxIdlTypeFullFields::Unnamed(out);
            proof {
                assert(full_fields_view(r)->Unnamed_0 =~= full_seq_view(out@));
            }
            Ok(r)
        },
    }
}

impl ToolboxIdlTypeFlat {
    /// Resolves the type: each definition it names is replaced by its type,
    /// each generic parameter by its binding in `generics_by_symbol`.
    /// Definitions that refer to each other without end are refused.
    pub fn try_hydrate(
        &self,
        generics_by_symbol: &Vec<(String, ToolboxIdlTypeFull)>,
        typedefs: &Vec<ToolboxIdlProgramType>,
    ) -> (r: Result<ToolboxIdlTypeFull, ToolboxIdlParseError>)
        ensures
            full_result_view(r) == spec_hydrate(
                flat_view(*self),
                named_full_seq_view(generics_by_symbol@),
                program_types_view(typedefs@),
                typedefs@.len(),
            ),
    {
        hydrate_rec(self, generics_by_symbol, typedefs, typedefs.len())
    }
}

impl ToolboxIdlTypeFlatFields {
    /// Resolves each of the fields, as `ToolboxIdlTypeFlat::try_hydrate` does.
    pub fn try_hydrate(
        &self,
        generics_by_symbol: &Vec<(String, ToolboxIdlTypeFull)>,
        typedefs: &Vec<ToolboxIdlProgramType>,
    ) -> (r: Result<ToolboxIdlTypeFullFields, ToolboxIdlParseError>)
        ensures
            full_fields_result_view(r) == spec_hydrate_fields(
                flat_fields_view(*self),
                named_full_seq_view(generics_by_symbol@),
                program_types_view(typedefs@),
                typedefs@.len(),
            ),
    {
        hydrate_fields_rec(self, generics_by_symbol, typedefs, typedefs.len())
    }
}

} // verus!
