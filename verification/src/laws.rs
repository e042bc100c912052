//! The library's global laws, stated and proved over the same specification
//! functions that the executable functions' contracts use.

use vstd::prelude::*;
use crate::emit::generate_model;
use crate::error::{ConflictModel, GenErrorModel};
use crate::infer::{elem_marker, infer, infer_elems, optionalize, unify, ShapeModel};
use crate::numeric::{resolve_int, stats_of, IntWidth};
use crate::options::{Options, OptionsModel};
use crate::registry::{name_taken, reg_fields, reg_shape, RecordDefModel, TypeNode};
use crate::registry::{fresh_name, lemma_fresh_name_free};
use crate::validation::is_valid_ident;
use crate::value::{Value, ValueModel};

verus! {

/// Determinism and idempotence: generation is a function of the document's
/// and the options' mathematical models alone, and `generate` returns
/// exactly `generate_model`. Two runs on structurally identical value trees
/// with equal options therefore produce byte-identical output: the same
/// type names, field orders, numeric widths and constant.
pub proof fn lemma_generate_deterministic(v1: Value, v2: Value, o1: Options, o2: Options)
    requires
        v1.model() == v2.model(),
        o1.model() == o2.model(),
    ensures
        generate_model(v1.model(), o1.model()) == generate_model(v2.model(), o2.model()),
{
}

/// The validation gate: an illegal struct name yields `InvalidStructName`
/// before any inference happens, and a legal struct name never does.
pub proof fn lemma_validation_gate(m: ValueModel, o: OptionsModel)
    ensures
        !is_valid_ident(o.struct_name) ==> generate_model(m, o) == Err::<
            Seq<char>,
            GenErrorModel,
        >(GenErrorModel::InvalidStructName(o.struct_name)),
        is_valid_ident(o.struct_name) ==> !(generate_model(m, o) matches Err(
            GenErrorModel::InvalidStructName(_),
        )),
{
    if is_valid_ident(o.struct_name) {
        match infer(Seq::empty(), m) {
            Err(c) => {},
            Ok(shape) => {
                match shape {
                    ShapeModel::Record(fs) => {},
                    _ => {},
                }
            },
        }
    }
}

/// Numeric width selection at the 64-bit extremes: the largest unsigned
/// 64-bit magnitude resolves to the minimal unsigned 64-bit width, and the
/// largest signed 64-bit magnitude to the minimal signed 64-bit width.
pub proof fn lemma_width_extremes()
    ensures
        resolve_int(stats_of(18446744073709551615int)) == (false, IntWidth::W64),
        resolve_int(stats_of(9223372036854775807int)) == (true, IntWidth::W64),
{
}

/// The empty-sequence convention: a sequence with no elements infers an
/// unknown element shape, and registration renders that element as unit, so
/// the emitted type is a sequence of unit.
pub proof fn lemma_empty_sequence(
    path: Seq<Seq<char>>,
    field: Seq<char>,
    in_seq: bool,
    defs: Seq<RecordDefModel>,
    reserved: Seq<char>,
)
    ensures
        infer(path, ValueModel::Sequence(Seq::empty())) == Ok::<
            ShapeModel,
            ConflictModel,
        >(ShapeModel::Sequence(Box::new(ShapeModel::Unknown))),
        reg_shape(
            ShapeModel::Sequence(Box::new(ShapeModel::Unknown)),
            field,
            in_seq,
            defs,
            reserved,
        ) == (TypeNode::Sequence(Box::new(TypeNode::Unit)), defs),
{
    assert(infer_elems(path.push(elem_marker()), ShapeModel::Unknown, Seq::empty()) == Ok::<
        ShapeModel,
        ConflictModel,
    >(ShapeModel::Unknown));
    assert(infer(path, ValueModel::Sequence(Seq::empty())) == Ok::<
        ShapeModel,
        ConflictModel,
    >(ShapeModel::Sequence(Box::new(ShapeModel::Unknown))));
    assert(reg_shape(ShapeModel::Unknown, field, true, defs, reserved) == (
        TypeNode::Unit,
        defs,
    ));
}

/// Option widening: a slot observed only as absent infers an optional
/// unknown payload; an absent occurrence unified with any present shape
/// yields exactly the optional form of that shape.
pub proof fn lemma_option_widening(path: Seq<Seq<char>>, t: ShapeModel)
    ensures
        infer(path, ValueModel::Optional(Option::None)) == Ok::<
            ShapeModel,
            ConflictModel,
        >(ShapeModel::Optional(Box::new(ShapeModel::Unknown))),
        unify(path, ShapeModel::Optional(Box::new(ShapeModel::Unknown)), t) == Ok::<
            ShapeModel,
            ConflictModel,
        >(optionalize(t)),
{
    match t {
        ShapeModel::Optional(y) => {
            assert(unify(path, ShapeModel::Unknown, *y) == Ok::<ShapeModel, ConflictModel>(*y));
        },
        ShapeModel::Unknown => {},
        _ => {
            assert(unify(path, ShapeModel::Unknown, t) == Ok::<ShapeModel, ConflictModel>(t));
        },
    }
}

/// No two definitions in a registry share a name, and none takes the
/// reserved root name.
pub open spec fn names_ok(defs: Seq<RecordDefModel>, reserved: Seq<char>) -> bool {
    &&& forall|i: int, j: int|
        0 <= i < j < defs.len() ==> (#[trigger] defs[i]).name != (#[trigger] defs[j]).name
    &&& forall|i: int| 0 <= i < defs.len() ==> (#[trigger] defs[i]).name != reserved
}

pub proof fn lemma_reg_shape_names(
    s: ShapeModel,
    field: Seq<char>,
    in_seq: bool,
    defs: Seq<RecordDefModel>,
    reserved: Seq<char>,
)
    requires
        names_ok(defs, reserved),
    ensures
        names_ok(reg_shape(s, field, in_seq, defs, reserved).1, reserved),
    decreases s,
{
    match s {
        ShapeModel::Optional(b) => {
            lemma_reg_shape_names(*b, field, in_seq, defs, reserved);
        },
        ShapeModel::Sequence(b) => {
            lemma_reg_shape_names(*b, field, true, defs, reserved);
        },
        ShapeModel::Record(fs) => {
            lemma_reg_fields_names(fs, defs, reserved);
            let r = reg_fields(fs, defs, reserved);
            match crate::registry::find_def(r.1, r.0) {
                Option::Some(i) => {},
                Option::None => {
                    let base = crate::registry::base_name(field, in_seq);
                    lemma_fresh_name_free(r.1, reserved, base);
                    let fresh = fresh_name(r.1, reserved, base);
                    let d2 = r.1.push(RecordDefModel { name: fresh, fields: r.0 });
                    assert forall|i: int, j: int|
                        0 <= i < j < d2.len() implies (#[trigger] d2[i]).name != (
                    #[trigger] d2[j]).name by {
                        if j < d2.len() - 1 {
                            assert(d2[i] == r.1[i] && d2[j] == r.1[j]);
                        } else {
                            assert(d2[i] == r.1[i]);
                            assert(!name_taken(r.1, reserved, fresh));
                        }
                    }
                },
            }
        },
        _ => {},
    }
}

pub proof fn lemma_reg_fields_names(
    fs: Seq<(Seq<char>, ShapeModel)>,
    defs: Seq<RecordDefModel>,
    reserved: Seq<char>,
)
    requires
        names_ok(defs, reserved),
    ensures
        names_ok(reg_fields(fs, defs, reserved).1, reserved),
    decreases fs,
{
    if fs.len() > 0 {
        lemma_reg_shape_names(fs[0].1, fs[0].0, false, defs, reserved);
        let h = reg_shape(fs[0].1, fs[0].0, false, defs, reserved);
        lemma_reg_fields_names(fs.drop_first(), h.1, reserved);
    }
}

/// Record type names are unique within one generation run's registry, the
/// root definition comes last, and it carries exactly the caller's struct
/// name. This is the registry `generate_model` renders.
pub proof fn lemma_registry_names_unique(
    fs: Seq<(Seq<char>, ShapeModel)>,
    struct_name: Seq<char>,
)
    ensures
        ({
            let r = reg_fields(fs, Seq::empty(), struct_name);
            let defs = r.1.push(RecordDefModel { name: struct_name, fields: r.0 });
            &&& defs.last().name == struct_name
            &&& forall|i: int, j: int|
                0 <= i < j < defs.len() ==> (#[trigger] defs[i]).name != (
                #[trigger] defs[j]).name
        }),
{
    assert(names_ok(Seq::empty(), struct_name));
    lemma_reg_fields_names(fs, Seq::empty(), struct_name);
    let r = reg_fields(fs, Seq::empty(), struct_name);
    let defs = r.1.push(RecordDefModel { name: struct_name, fields: r.0 });
    assert forall|i: int, j: int|
        0 <= i < j < defs.len() implies (#[trigger] defs[i]).name != (#[trigger] defs[j]).name by {
        if j < defs.len() - 1 {
            assert(defs[i] == r.1[i] && defs[j] == r.1[j]);
        } else {
            assert(defs[i] == r.1[i]);
        }
    }
}

} // verus!
