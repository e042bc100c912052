//! The code emitter: renders the registry as struct declarations (in
//! registration order, so a record referenced by another is declared first)
//! and, on request, one literal constant reproducing the document's exact
//! values. The output is pinned character by character by `generate_model`,
//! so repeated runs on structurally identical documents are byte-identical.

use vstd::prelude::*;
use vstd::string::*;
use crate::error::{GenError, GenErrorModel};
use crate::infer::{infer, infer_value, path_model, Shape, ShapeModel};
use crate::numeric::IntWidth;
use crate::options::{Options, OptionsModel};
use crate::registry::{
    lemma_nmodel_fields, lemma_rmodel, nmodel_fields, reg_fields, register_fields, rmodel, RecordDef, RecordDefModel,
    Registry, TypeNode,
};
use crate::text;
use crate::validation;
use crate::value::{lemma_model_fields, model_fields, Value, ValueModel};

verus! {

broadcast use vstd::std_specs::vec::axiom_vec_decreases_to_view, vstd::seq::axiom_seq_index_decreases, vstd::seq::axiom_seq_subrange_decreases;

pub open spec fn int_type_text(signed: bool, w: IntWidth) -> Seq<char> {
    if signed {
        match w {
            IntWidth::W8 => "i8"@,
            IntWidth::W16 => "i16"@,
            IntWidth::W32 => "i32"@,
            IntWidth::W64 => "i64"@,
            IntWidth::W128 => "i128"@,
        }
    } else {
        match w {
            IntWidth::W8 => "u8"@,
            IntWidth::W16 => "u16"@,
            IntWidth::W32 => "u32"@,
            IntWidth::W64 => "u64"@,
            IntWidth::W128 => "u128"@,
        }
    }
}

/// The rendered type of a node. A registry reference out of range renders as
/// the unit type; registration never produces one.
pub open spec fn type_text(n: TypeNode, defs: Seq<RecordDefModel>) -> Seq<char>
    decreases n,
{
    match n {
        TypeNode::Unit => "()"@,
        TypeNode::Bool => "bool"@,
        TypeNode::Char => "char"@,
        TypeNode::Text => "Cow<'static, str>"@,
        TypeNode::Float => "f64"@,
        TypeNode::Integer { signed, width } => int_type_text(signed, width),
        TypeNode::Optional(b) => "Option<"@ + type_text(*b, defs) + ">"@,
        TypeNode::Sequence(b) => "Cow<'static, ["@ + type_text(*b, defs) + "]>"@,
        TypeNode::Ref(i) => if (i as int) < defs.len() {
            defs[i as int].name
        } else {
            "()"@
        },
    }
}

pub open spec fn int_literal(i: int) -> Seq<char> {
    if i < 0 {
        seq!['-'] + text::dec_digits((-i) as nat)
    } else {
        text::dec_digits(i as nat)
    }
}

pub open spec fn opt_inner(n: TypeNode) -> TypeNode {
    match n {
        TypeNode::Optional(b) => *b,
        _ => n,
    }
}

pub open spec fn seq_inner(n: TypeNode) -> TypeNode {
    match n {
        TypeNode::Sequence(b) => *b,
        _ => n,
    }
}

/// First value bound to `n` in a record value's fields.
pub open spec fn lookup_val_idx(vfs: Seq<(Seq<char>, ValueModel)>, n: Seq<char>) -> Option<int>
    decreases vfs,
{
    if vfs.len() == 0 {
        Option::None
    } else if vfs[0].0 == n {
        Option::Some(0int)
    } else {
        match lookup_val_idx(vfs.drop_first(), n) {
            Option::Some(i) => Option::Some(i + 1),
            Option::None => Option::None,
        }
    }
}

/// The literal expression for one value under its resolved type. The type
/// steers only the optional wrapping, sequence brackets and record names;
/// every scalar renders from the value alone.
pub open spec fn render_value(v: ValueModel, n: TypeNode, defs: Seq<RecordDefModel>) -> Seq<char>
    decreases v, n, 0int,
{
    if (n is Optional) && !(v is Optional) {
        "Some("@ + render_value(v, opt_inner(n), defs) + ")"@
    } else {
        match v {
        ValueModel::Unit => "()"@,
        ValueModel::Bool(b) => if b {
            "true"@
        } else {
            "false"@
        },
        ValueModel::Char(c) => "'"@ + text::char_piece(c) + "'"@,
        ValueModel::Integer(i) => int_literal(i),
        ValueModel::Float(t) => t,
        ValueModel::Text(t) => "Cow::Borrowed(\""@ + text::esc_str(t) + "\")"@,
        ValueModel::Optional(o) => match o {
            Option::None => "None"@,
            Option::Some(b) => "Some("@ + render_value(*b, opt_inner(n), defs) + ")"@,
        },
        ValueModel::Sequence(es) => "Cow::Borrowed(&["@ + render_elems(
            es,
            seq_inner(n),
            defs,
            es.len() as int,
        ) + "])"@,
        ValueModel::Record(vfs) => match n {
            TypeNode::Ref(ri) => if (ri as int) < defs.len() {
                let d = defs[ri as int];
                if d.fields.len() == 0 {
                    d.name + " {}"@
                } else {
                    d.name + " { "@ + render_rec_fields(
                        d.fields,
                        vfs,
                        defs,
                        d.fields.len() as int,
                    ) + " }"@
                }
            } else {
                "()"@
            },
            _ => "()"@,
        },
        }
    }
}

pub open spec fn render_elems(
    es: Seq<ValueModel>,
    n: TypeNode,
    defs: Seq<RecordDefModel>,
    i: int,
) -> Seq<char>
    decreases es, n, i,
{
    if i <= 0 {
        Seq::empty()
    } else {
        render_elems(es, n, defs, i - 1) + (if i > 1 {
            ", "@
        } else {
            Seq::empty()
        }) + (if i - 1 < es.len() {
            render_value(es[i - 1], n, defs)
        } else {
            Seq::empty()
        })
    }
}

/// One record literal's fields, in the definition's field order: an absent
/// optional slot renders `None`, a present value under an optional type is
/// wrapped in `Some` unless it is itself optional.
pub open spec fn render_rec_fields(
    dfs: Seq<(Seq<char>, TypeNode)>,
    vfs: Seq<(Seq<char>, ValueModel)>,
    defs: Seq<RecordDefModel>,
    i: int,
) -> Seq<char>
    decreases vfs, TypeNode::Unit, i,
{
    if i <= 0 || i > dfs.len() {
        Seq::empty()
    } else {
        let name = dfs[i - 1].0;
        let t = dfs[i - 1].1;
        render_rec_fields(dfs, vfs, defs, i - 1) + (if i > 1 {
            ", "@
        } else {
            Seq::empty()
        }) + name + ": "@ + (match lookup_val_idx(vfs, name) {
            Option::None => match t {
                TypeNode::Optional(_) => "None"@,
                _ => "()"@,
            },
            Option::Some(j) => if 0 <= j < vfs.len() {
                render_value(vfs[j].1, t, defs)
            } else {
                "()"@
            },
        })
    }
}

pub open spec fn traits_model(ts: Seq<String>) -> Seq<Seq<char>> {
    Seq::new(ts.len(), |i: int| ts[i]@)
}

pub open spec fn traits_join(ts: Seq<Seq<char>>, i: int) -> Seq<char>
    decreases i,
{
    if i <= 0 || i > ts.len() {
        Seq::empty()
    } else {
        traits_join(ts, i - 1) + (if i > 1 {
            ", "@
        } else {
            Seq::empty()
        }) + ts[i - 1]
    }
}

/// The derivation annotation line shared by every emitted record; empty when
/// the caller supplied no annotations.
pub open spec fn derive_line(ts: Seq<Seq<char>>) -> Seq<char> {
    if ts.len() == 0 {
        Seq::empty()
    } else {
        "#[derive("@ + traits_join(ts, ts.len() as int) + ")]\n"@
    }
}

pub open spec fn fields_decl(
    fs: Seq<(Seq<char>, TypeNode)>,
    defs: Seq<RecordDefModel>,
    i: int,
) -> Seq<char>
    decreases i,
{
    if i <= 0 || i > fs.len() {
        Seq::empty()
    } else {
        fields_decl(fs, defs, i - 1) + "    pub "@ + fs[i - 1].0 + ": "@ + type_text(
            fs[i - 1].1,
            defs,
        ) + ",\n"@
    }
}

pub open spec fn def_text(
    d: RecordDefModel,
    defs: Seq<RecordDefModel>,
    ts: Seq<Seq<char>>,
) -> Seq<char> {
    derive_line(ts) + "pub struct "@ + d.name + " {\n"@ + fields_decl(
        d.fields,
        defs,
        d.fields.len() as int,
    ) + "}\n\n"@
}

pub open spec fn defs_text(defs: Seq<RecordDefModel>, ts: Seq<Seq<char>>, i: int) -> Seq<char>
    decreases i,
{
    if i <= 0 || i > defs.len() {
        Seq::empty()
    } else {
        defs_text(defs, ts, i - 1) + def_text(defs[i - 1], defs, ts)
    }
}

pub open spec fn header_text() -> Seq<char> {
    "use std::borrow::Cow;\n\n"@
}

pub open spec fn const_text(
    m: ValueModel,
    root: TypeNode,
    defs: Seq<RecordDefModel>,
    cname: Seq<char>,
) -> Seq<char> {
    "pub const "@ + cname + ": "@ + type_text(root, defs) + " = "@ + render_value(m, root, defs)
        + ";\n"@
}

/// The whole generation pipeline as one mathematical function: validation
/// gate, inference, registration of the root record's fields, the root
/// definition under exactly the caller's struct name, and emission. Equal
/// models give equal output, so generation is deterministic.
pub open spec fn generate_model(m: ValueModel, o: OptionsModel) -> Result<
    Seq<char>,
    GenErrorModel,
> {
    if !validation::is_valid_ident(o.struct_name) {
        Err(GenErrorModel::InvalidStructName(o.struct_name))
    } else {
        match infer(Seq::empty(), m) {
            Err(c) => Err(GenErrorModel::TypeConflict(c)),
            Ok(shape) => match shape {
                ShapeModel::Record(fs) => {
                    let r = reg_fields(fs, Seq::empty(), o.struct_name);
                    let defs = r.1.push(RecordDefModel { name: o.struct_name, fields: r.0 });
                    let root = TypeNode::Ref((defs.len() - 1) as usize);
                    Ok(
                        header_text() + defs_text(defs, o.derived_traits, defs.len() as int) + (
                        if o.generate_const {
                            const_text(m, root, defs, o.spec_const_name())
                        } else {
                            Seq::empty()
                        }),
                    )
                },
                // a record document always infers a record shape
                _ => Ok(Seq::empty()),
            },
        }
    }
}


pub fn push_int_type(out: &mut String, signed: bool, w: IntWidth)
    ensures
        final(out)@ == old(out)@ + int_type_text(signed, w),
{
    if signed {
        match w {
            IntWidth::W8 => out.append("i8"),
            IntWidth::W16 => out.append("i16"),
            IntWidth::W32 => out.append("i32"),
            IntWidth::W64 => out.append("i64"),
            IntWidth::W128 => out.append("i128"),
        }
    } else {
        match w {
            IntWidth::W8 => out.append("u8"),
            IntWidth::W16 => out.append("u16"),
            IntWidth::W32 => out.append("u32"),
            IntWidth::W64 => out.append("u64"),
            IntWidth::W128 => out.append("u128"),
        }
    }
}

#[verifier::loop_isolation(false)]
pub fn push_type_text(out: &mut String, n: &TypeNode, reg: &Registry)
    ensures
        final(out)@ == old(out)@ + type_text(*n, rmodel(reg.defs@)),
    decreases *n,
{
    match n {
        TypeNode::Unit => out.append("()"),
        TypeNode::Bool => out.append("bool"),
        TypeNode::Char => out.append("char"),
        TypeNode::Text => out.append("Cow<'static, str>"),
        TypeNode::Float => out.append("f64"),
        TypeNode::Integer { signed, width } => push_int_type(out, *signed, *width),
        TypeNode::Optional(b) => {
            out.append("Option<");
            push_type_text(out, &**b, reg);
            out.append(">");
            assert(out@ =~= old(out)@ + type_text(*n, rmodel(reg.defs@)));
        },
        TypeNode::Sequence(b) => {
            out.append("Cow<'static, [");
            push_type_text(out, &**b, reg);
            out.append("]>");
            assert(out@ =~= old(out)@ + type_text(*n, rmodel(reg.defs@)));
        },
        TypeNode::Ref(i) => {
            proof {
                lemma_rmodel(reg.defs@);
            }
            if *i < reg.defs.len() {
                out.append(reg.defs[*i].name.as_str());
            } else {
                out.append("()");
            }
        },
    }
}

pub fn exec_lookup_val(vfs: &Vec<(String, Value)>, n: &String) -> (r: Option<usize>)
    ensures
        (r matches Some(j) ==> j < vfs@.len() && lookup_val_idx(model_fields(vfs@), n@) == Some(
            j as int,
        )),
        (r is None ==> lookup_val_idx(model_fields(vfs@), n@) is None),
{
    proof {
        lemma_model_fields(vfs@);
    }
    let ghost vm = model_fields(vfs@);
    proof {
        assert(vm.skip(0) =~= vm);
    }
    let mut i: usize = 0;
    while i < vfs.len()
        invariant
            i <= vfs@.len(),
            vm == model_fields(vfs@),
            vm.len() == vfs@.len(),
            forall|j: int|
                0 <= j < vfs@.len() ==> vm[j] == ((#[trigger] vfs@[j]).0@, vfs@[j].1.model()),
            lookup_val_idx(vm, n@) == (match lookup_val_idx(vm.skip(i as int), n@) {
                Option::Some(k) => Option::Some(k + i as int),
                Option::None => Option::None::<int>,
            }),
        decreases vfs@.len() - i,
    {
        proof {
            assert(vm.skip(i as int)[0] == vm[i as int]);
            assert(vm.skip(i as int).drop_first() =~= vm.skip(i as int + 1));
        }
        if vfs[i].0 == *n {
            proof {
                assert(lookup_val_idx(vm.skip(i as int), n@) == Option::Some(0int));
            }
            return Some(i);
        }
        i = i + 1;
    }
    proof {
        assert(vm.skip(vfs@.len() as int) =~= Seq::<(Seq<char>, ValueModel)>::empty());
    }
    None
}

/// Executable rendering of one literal expression, tied exactly to the
/// specification `render_value`.
#[verifier::rlimit(60)]
#[verifier::loop_isolation(false)]
pub fn push_value(out: &mut String, v: &Value, n: &TypeNode, reg: &Registry)
    ensures
        final(out)@ == old(out)@ + render_value(v.model(), *n, rmodel(reg.defs@)),
    decreases *v, *n, 0int,
{
    let ghost dm = rmodel(reg.defs@);
    let wrap: bool = match (n, v) {
        (TypeNode::Optional(_), Value::Optional(_)) => false,
        (TypeNode::Optional(_), _) => true,
        _ => false,
    };
    if wrap {
        let inner: &TypeNode = match n {
            TypeNode::Optional(t2) => &**t2,
            _ => n,
        };
        out.append("Some(");
        push_value(out, v, inner, reg);
        out.append(")");
        assert(out@ =~= old(out)@ + render_value(v.model(), *n, dm));
        return ;
    }
    match v {
        Value::Unit => out.append("()"),
        Value::Bool(b) => {
            if *b {
                out.append("true")
            } else {
                out.append("false")
            }
        },
        Value::Char(c) => {
            out.append("'");
            text::push_escaped_char(out, *c);
            out.append("'");
            assert(out@ =~= old(out)@ + render_value(v.model(), *n, dm));
        },
        Value::Integer(l) => {
            if l.negative && l.magnitude > 0 {
                out.append("-");
                text::push_u64(out, l.magnitude);
                proof {
                    reveal_strlit("-");
                    assert("-"@ =~= seq!['-']);
                }
            } else {
                text::push_u64(out, l.magnitude);
            }
            assert(out@ =~= old(out)@ + render_value(v.model(), *n, dm));
        },
        Value::Float(t) => out.append(t.as_str()),
        Value::Text(t) => {
            out.append("Cow::Borrowed(\"");
            text::push_escaped_str(out, t.as_str());
            out.append("\")");
            assert(out@ =~= old(out)@ + render_value(v.model(), *n, dm));
        },
        Value::Optional(o) => match o {
            Option::None => out.append("None"),
            Option::Some(b) => {
                let inner: &TypeNode = match n {
                    TypeNode::Optional(t2) => &**t2,
                    _ => n,
                };
                out.append("Some(");
                push_value(out, &**b, inner, reg);
                out.append(")");
                assert(out@ =~= old(out)@ + render_value(v.model(), *n, dm));
            },
        },
        Value::Sequence(es) => {
            let ghost em = crate::value::model_list(es@);
            proof {
                crate::value::lemma_model_list(es@);
            }
            let inner: &TypeNode = match n {
                TypeNode::Sequence(t2) => &**t2,
                _ => n,
            };
            out.append("Cow::Borrowed(&[");
            let ghost base = out@;
            let mut i: usize = 0;
            while i < es.len()
                invariant
                    i <= es@.len(),
                    em == crate::value::model_list(es@),
                    em.len() == es@.len(),
                    forall|j: int| 0 <= j < es@.len() ==> em[j] == (#[trigger] es@[j]).model(),
                    *inner == seq_inner(*n),
                    dm == rmodel(reg.defs@),
                    out@ == base + render_elems(em, seq_inner(*n), dm, i as int),
                decreases es@.len() - i,
            {
                if i > 0 {
                    out.append(", ");
                }
                proof {
                    assert(decreases_to!(*es => es@));
                    assert(decreases_to!(es@ => es@[i as int]));
                }
                push_value(out, &es[i], inner, reg);
                proof {
                    assert(out@ =~= base + render_elems(em, seq_inner(*n), dm, i as int + 1));
                }
                i = i + 1;
            }
            out.append("])");
            assert(out@ =~= old(out)@ + render_value(v.model(), *n, dm));
        },
        Value::Record(vfs) => {
            let ghost vm = model_fields(vfs@);
            proof {
                crate::value::lemma_model_fields(vfs@);
                lemma_rmodel(reg.defs@);
            }
            match n {
                TypeNode::Ref(ri) => {
                    if *ri < reg.defs.len() {
                        let d = &reg.defs[*ri];
                        let ghost dfm = nmodel_fields(d.fields@);
                        proof {
                            lemma_nmodel_fields(d.fields@);
                            assert(dm[*ri as int].fields == dfm);
                        }
                        out.append(d.name.as_str());
                        if d.fields.len() == 0 {
                            out.append(" {}");
                            assert(out@ =~= old(out)@ + render_value(v.model(), *n, dm));
                        } else {
                            out.append(" { ");
                            let ghost base = out@;
                            let mut i: usize = 0;
                            while i < d.fields.len()
                                invariant
                                    i <= d.fields@.len(),
                                    *ri < reg.defs@.len(),
                                    d == reg.defs@[*ri as int],
                                    dm == rmodel(reg.defs@),
                                    dm[*ri as int].fields == dfm,
                                    dfm == nmodel_fields(d.fields@),
                                    dfm.len() == d.fields@.len(),
                                    forall|j: int|
                                        0 <= j < d.fields@.len() ==> dfm[j] == ((
                                        #[trigger] d.fields@[j]).0@, d.fields@[j].1),
                                    vm == model_fields(vfs@),
                                    vm.len() == vfs@.len(),
                                    forall|j: int|
                                        0 <= j < vfs@.len() ==> vm[j] == ((
                                        #[trigger] vfs@[j]).0@, vfs@[j].1.model()),
                                    out@ == base + render_rec_fields(dfm, vm, dm, i as int),
                                decreases d.fields@.len() - i,
                            {
                                if i > 0 {
                                    out.append(", ");
                                }
                                out.append(d.fields[i].0.as_str());
                                out.append(": ");
                                let found = exec_lookup_val(vfs, &d.fields[i].0);
                                match found {
                                    None => {
                                        match &d.fields[i].1 {
                                            TypeNode::Optional(_) => out.append("None"),
                                            _ => out.append("()"),
                                        }
                                    },
                                    Some(j) => {
                                        proof {
                                            assert(decreases_to!(*vfs => vfs@));
                                            assert(decreases_to!(vfs@ => vfs@[j as int]));
                                            assert(decreases_to!(vfs@[j as int] => vfs@[
                                                j as int].1));
                                        }
                                        push_value(out, &vfs[j].1, &d.fields[i].1, reg);
                                    },
                                }
                                proof {
                                    assert(out@ =~= base + render_rec_fields(
                                        dfm,
                                        vm,
                                        dm,
                                        i as int + 1,
                                    ));
                                }
                                i = i + 1;
                            }
                            out.append(" }");
                            assert(out@ =~= old(out)@ + render_value(v.model(), *n, dm));
                        }
                    } else {
                        out.append("()");
                    }
                },
                _ => out.append("()"),
            }
        },
    }
}

pub fn push_derive_line(out: &mut String, ts: &Vec<String>)
    ensures
        final(out)@ == old(out)@ + derive_line(traits_model(ts@)),
{
    let ghost tm = traits_model(ts@);
    if ts.len() == 0 {
        assert(out@ =~= old(out)@ + derive_line(tm));
        return ;
    }
    out.append("#[derive(");
    let mut i: usize = 0;
    while i < ts.len()
        invariant
            i <= ts@.len(),
            tm == traits_model(ts@),
            tm.len() == ts@.len(),
            out@ == old(out)@ + "#[derive("@ + traits_join(tm, i as int),
        decreases ts@.len() - i,
    {
        if i > 0 {
            out.append(", ");
        }
        out.append(ts[i].as_str());
        proof {
            assert(out@ =~= old(out)@ + "#[derive("@ + traits_join(tm, i as int + 1));
        }
        i = i + 1;
    }
    out.append(")]\n");
    assert(out@ =~= old(out)@ + derive_line(tm));
}

#[verifier::loop_isolation(false)]
pub fn push_defs(out: &mut String, reg: &Registry, ts: &Vec<String>)
    ensures
        final(out)@ == old(out)@ + defs_text(
            rmodel(reg.defs@),
            traits_model(ts@),
            rmodel(reg.defs@).len() as int,
        ),
{
    let ghost dm = rmodel(reg.defs@);
    let ghost tm = traits_model(ts@);
    proof {
        lemma_rmodel(reg.defs@);
    }
    let mut k: usize = 0;
    while k < reg.defs.len()
        invariant
            k <= reg.defs@.len(),
            out@ == old(out)@ + defs_text(dm, tm, k as int),
        decreases reg.defs@.len() - k,
    {
        let d = &reg.defs[k];
        let ghost dfm = nmodel_fields(d.fields@);
        proof {
            lemma_nmodel_fields(d.fields@);
        }
        push_derive_line(out, ts);
        out.append("pub struct ");
        out.append(d.name.as_str());
        out.append(" {\n");
        let ghost base = out@;
        let mut j: usize = 0;
        while j < d.fields.len()
            invariant
                j <= d.fields@.len(),
                k < reg.defs@.len(),
                d == reg.defs@[k as int],
                dfm == nmodel_fields(d.fields@),
                dfm.len() == d.fields@.len(),
                forall|q: int|
                    0 <= q < d.fields@.len() ==> dfm[q] == ((#[trigger] d.fields@[q]).0@,
                    d.fields@[q].1),
                out@ == base + fields_decl(dfm, dm, j as int),
            decreases d.fields@.len() - j,
        {
            out.append("    pub ");
            out.append(d.fields[j].0.as_str());
            out.append(": ");
            push_type_text(out, &d.fields[j].1, reg);
            out.append(",\n");
            proof {
                assert(out@ =~= base + fields_decl(dfm, dm, j as int + 1));
            }
            j = j + 1;
        }
        out.append("}\n\n");
        proof {
            assert(dm[k as int].fields == dfm);
            assert(out@ =~= old(out)@ + defs_text(dm, tm, k as int + 1));
        }
        k = k + 1;
    }
}

/// One complete, stateless generation run: validate the options, infer the
/// document's shape, register and name its record types, and render the
/// declarations plus, on request, the literal constant. The result is the
/// exact text `generate_model` assigns to the document's and the options'
/// models, so the whole pipeline is deterministic.
pub fn generate(value: &Value, options: &Options) -> (r: Result<String, GenError>)
    requires
        *value matches Value::Record(_),
    ensures
        (r matches Ok(s) ==> generate_model(value.model(), options.model()) == Ok::<
            Seq<char>,
            GenErrorModel,
        >(s@)),
        (r matches Err(e) ==> generate_model(value.model(), options.model()) == Err::<
            Seq<char>,
            GenErrorModel,
        >(e.model())),
{
    if !validation::valid_identifier(options.struct_name.as_str()) {
        return Err(GenError::InvalidStructName(options.struct_name.clone()));
    }
    let path: Vec<String> = Vec::new();
    proof {
        assert(path_model(path@) =~= Seq::<Seq<char>>::empty());
    }
    let shape = match infer_value(&path, value) {
        Err(c) => {
            return Err(GenError::TypeConflict(c));
        },
        Ok(s) => s,
    };
    match shape {
        Shape::Record(fs) => {
            let mut reg = Registry { defs: Vec::new(), reserved: options.struct_name.clone() };
            proof {
                assert(rmodel(reg.defs@) =~= Seq::<RecordDefModel>::empty());
            }
            let nodes = register_fields(&fs, &mut reg);
            let ghost dpre = rmodel(reg.defs@);
            let root_name = options.struct_name.clone();
            let ghost dv = reg.defs@;
            reg.defs.push(RecordDef { name: root_name, fields: nodes });
            proof {
                lemma_rmodel(reg.defs@);
                assert(reg.defs@.drop_last() =~= dv);
                assert(rmodel(reg.defs@) =~= dpre.push(reg.defs@.last().model()));
            }
            let root_idx = reg.defs.len() - 1;
            let root = TypeNode::Ref(root_idx);
            let mut out = String::new();
            out.append("use std::borrow::Cow;\n\n");
            push_defs(&mut out, &reg, &options.derived_traits);
            if options.generate_const {
                let cname = options.real_const_name();
                out.append("pub const ");
                out.append(cname.as_str());
                out.append(": ");
                push_type_text(&mut out, &root, &reg);
                out.append(" = ");
                push_value(&mut out, value, &root, &reg);
                out.append(";\n");
            }
            proof {
                assert(out@ =~= generate_model(value.model(), options.model()) ->Ok_0);
            }
            Ok(out)
        },
        _ => {
            // a record document always infers a record shape
            proof {
                assert(false);
            }
            Ok(String::new())
        },
    }
}

} // verus!
