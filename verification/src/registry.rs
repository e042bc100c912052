//! The registry of record definitions and the name allocator. Registration
//! walks an inferred shape bottom-up, resolves numeric widths, collapses
//! structurally equal records onto one entry, and names each new record from
//! its enclosing field (singularized under a sequence, PascalCased), growing
//! the name with `x` until it is free. The root name is reserved up front,
//! so the root record always receives exactly the caller's struct name.

use vstd::prelude::*;
use vstd::string::*;
use crate::infer::{Shape, ShapeModel};
use crate::infer::{lemma_smodel_fields, smodel_fields};
use crate::numeric::{exec_resolve_int, resolve_int, IntWidth};
use crate::text;
use crate::text::push_char;

verus! {

broadcast use vstd::std_specs::vec::axiom_vec_decreases_to_view, vstd::seq::axiom_seq_index_decreases, vstd::seq::axiom_seq_subrange_decreases;

/// A resolved type reference: the typed counterpart of a shape, with records
/// replaced by indices into the registry.
#[derive(Debug)]
pub enum TypeNode {
    Unit,
    Bool,
    Char,
    Text,
    Float,
    Integer { signed: bool, width: IntWidth },
    Optional(Box<TypeNode>),
    Sequence(Box<TypeNode>),
    Ref(usize),
}

#[derive(Debug)]
pub struct RecordDef {
    pub name: String,
    pub fields: Vec<(String, TypeNode)>,
}

pub struct RecordDefModel {
    pub name: Seq<char>,
    pub fields: Seq<(Seq<char>, TypeNode)>,
}

pub open spec fn nmodel_fields(fs: Seq<(String, TypeNode)>) -> Seq<(Seq<char>, TypeNode)>
    decreases fs,
{
    if fs.len() == 0 {
        Seq::empty()
    } else {
        nmodel_fields(fs.drop_last()).push((fs.last().0@, fs.last().1))
    }
}

pub proof fn lemma_nmodel_fields(fs: Seq<(String, TypeNode)>)
    ensures
        nmodel_fields(fs).len() == fs.len(),
        forall|i: int|
            0 <= i < fs.len() ==> nmodel_fields(fs)[i] == ((#[trigger] fs[i]).0@, fs[i].1),
    decreases fs,
{
    if fs.len() > 0 {
        lemma_nmodel_fields(fs.drop_last());
        assert forall|i: int|
            0 <= i < fs.len() implies nmodel_fields(fs)[i] == ((#[trigger] fs[i]).0@,
        fs[i].1) by {
            if i < fs.len() - 1 {
                assert(fs.drop_last()[i] == fs[i]);
                assert(nmodel_fields(fs)[i] == nmodel_fields(fs.drop_last())[i]);
            } else {
                assert(fs.last() == fs[i]);
            }
        }
    }
}

impl RecordDef {
    pub open spec fn model(self) -> RecordDefModel {
        RecordDefModel { name: self.name@, fields: nmodel_fields(self.fields@) }
    }
}

pub open spec fn rmodel(defs: Seq<RecordDef>) -> Seq<RecordDefModel>
    decreases defs,
{
    if defs.len() == 0 {
        Seq::empty()
    } else {
        rmodel(defs.drop_last()).push(defs.last().model())
    }
}

pub proof fn lemma_rmodel(defs: Seq<RecordDef>)
    ensures
        rmodel(defs).len() == defs.len(),
        forall|i: int| 0 <= i < defs.len() ==> rmodel(defs)[i] == (#[trigger] defs[i]).model(),
    decreases defs,
{
    if defs.len() > 0 {
        lemma_rmodel(defs.drop_last());
        assert forall|i: int|
            0 <= i < defs.len() implies rmodel(defs)[i] == (#[trigger] defs[i]).model() by {
            if i < defs.len() - 1 {
                assert(defs.drop_last()[i] == defs[i]);
                assert(rmodel(defs)[i] == rmodel(defs.drop_last())[i]);
            } else {
                assert(defs.last() == defs[i]);
            }
        }
    }
}

/// The deduplicating store of record definitions for one generation run.
/// `reserved` is the caller's struct name, held back for the root record.
#[derive(Debug)]
pub struct Registry {
    pub defs: Vec<RecordDef>,
    pub reserved: String,
}

/// Whether `n` is unavailable: equal to the reserved root name or to the
/// name of a registered definition.
pub open spec fn name_taken(defs: Seq<RecordDefModel>, reserved: Seq<char>, n: Seq<char>) -> bool {
    n == reserved || exists|i: int| 0 <= i < defs.len() && (#[trigger] defs[i]).name == n
}

/// An upper bound on the length of every unavailable name.
pub open spec fn name_len_bound(defs: Seq<RecordDefModel>, reserved: Seq<char>) -> nat
    decreases defs,
{
    if defs.len() == 0 {
        reserved.len()
    } else {
        let rest = name_len_bound(defs.drop_last(), reserved);
        if defs.last().name.len() > rest {
            defs.last().name.len()
        } else {
            rest
        }
    }
}

pub proof fn lemma_taken_len(defs: Seq<RecordDefModel>, reserved: Seq<char>, n: Seq<char>)
    ensures
        name_taken(defs, reserved, n) ==> n.len() <= name_len_bound(defs, reserved),
    decreases defs,
{
    if defs.len() > 0 {
        lemma_taken_len(defs.drop_last(), reserved, n);
        if name_taken(defs, reserved, n) && n != reserved {
            let i = choose|i: int| 0 <= i < defs.len() && (#[trigger] defs[i]).name == n;
            if i < defs.len() - 1 {
                assert(defs.drop_last()[i] == defs[i]);
                assert(name_taken(defs.drop_last(), reserved, n));
            } else {
                assert(defs.last() == defs[i]);
            }
        }
    }
}

/// The allocator's disambiguation: grow the base name by one `x` at a time
/// until it is free. It always succeeds, because taken names are bounded in
/// length.
pub open spec fn fresh_name(
    defs: Seq<RecordDefModel>,
    reserved: Seq<char>,
    base: Seq<char>,
) -> Seq<char>
    decreases name_len_bound(defs, reserved) + 1 - base.len()
        via fresh_name_dec
{
    if !name_taken(defs, reserved, base) {
        base
    } else {
        fresh_name(defs, reserved, base.push('x'))
    }
}

#[via_fn]
proof fn fresh_name_dec(defs: Seq<RecordDefModel>, reserved: Seq<char>, base: Seq<char>) {
    if name_taken(defs, reserved, base) {
        lemma_taken_len(defs, reserved, base);
    }
}

/// The allocated name is never taken: collisions are resolved internally.
pub proof fn lemma_fresh_name_free(
    defs: Seq<RecordDefModel>,
    reserved: Seq<char>,
    base: Seq<char>,
)
    ensures
        !name_taken(defs, reserved, fresh_name(defs, reserved, base)),
    decreases name_len_bound(defs, reserved) + 1 - base.len(),
{
    if name_taken(defs, reserved, base) {
        lemma_taken_len(defs, reserved, base);
        lemma_fresh_name_free(defs, reserved, base.push('x'));
    }
}

/// The base name for a record under field `field`: PascalCase of the field
/// name, singularized first when the record sits inside a sequence, and
/// prefixed with `T` if the result would not start with an ASCII letter.
pub open spec fn base_name(field: Seq<char>, in_seq: bool) -> Seq<char> {
    let p = text::pascal(
        if in_seq {
            singular(field)
        } else {
            field
        },
    );
    if p.len() == 0 || !text::is_ascii_alpha(p[0]) {
        seq!['T'] + p
    } else {
        p
    }
}

/// A plural field name reduced to a singular base: one trailing `s` is
/// dropped when something else precedes it.
pub open spec fn singular(s: Seq<char>) -> Seq<char> {
    if s.len() >= 2 && s.last() == 's' {
        s.drop_last()
    } else {
        s
    }
}

/// First definition whose fields equal `fp`, if any.
pub open spec fn find_def(defs: Seq<RecordDefModel>, fp: Seq<(Seq<char>, TypeNode)>) -> Option<
    int,
>
    decreases defs,
{
    if defs.len() == 0 {
        Option::None
    } else if defs[0].fields == fp {
        Option::Some(0int)
    } else {
        match find_def(defs.drop_first(), fp) {
            Option::Some(i) => Option::Some(i + 1),
            Option::None => Option::None,
        }
    }
}

/// Registration of a shape: resolves it to a type node, merging any record
/// it contains into the registry. An unknown shape resolves to unit.
pub open spec fn reg_shape(
    s: ShapeModel,
    field: Seq<char>,
    in_seq: bool,
    defs: Seq<RecordDefModel>,
    reserved: Seq<char>,
) -> (TypeNode, Seq<RecordDefModel>)
    decreases s,
{
    match s {
        ShapeModel::Unknown => (TypeNode::Unit, defs),
        ShapeModel::Unit => (TypeNode::Unit, defs),
        ShapeModel::Bool => (TypeNode::Bool, defs),
        ShapeModel::Char => (TypeNode::Char, defs),
        ShapeModel::Text => (TypeNode::Text, defs),
        ShapeModel::Float => (TypeNode::Float, defs),
        ShapeModel::Integer(st) => (
            TypeNode::Integer { signed: resolve_int(st).0, width: resolve_int(st).1 },
            defs,
        ),
        ShapeModel::Optional(b) => {
            let r = reg_shape(*b, field, in_seq, defs, reserved);
            (TypeNode::Optional(Box::new(r.0)), r.1)
        },
        ShapeModel::Sequence(b) => {
            let r = reg_shape(*b, field, true, defs, reserved);
            (TypeNode::Sequence(Box::new(r.0)), r.1)
        },
        ShapeModel::Record(fs) => {
            let r = reg_fields(fs, defs, reserved);
            match find_def(r.1, r.0) {
                Option::Some(i) => (TypeNode::Ref(i as usize), r.1),
                Option::None => (
                    TypeNode::Ref(r.1.len() as usize),
                    r.1.push(
                        RecordDefModel {
                            name: fresh_name(r.1, reserved, base_name(field, in_seq)),
                            fields: r.0,
                        },
                    ),
                ),
            }
        },
    }
}

pub open spec fn reg_fields(
    fs: Seq<(Seq<char>, ShapeModel)>,
    defs: Seq<RecordDefModel>,
    reserved: Seq<char>,
) -> (Seq<(Seq<char>, TypeNode)>, Seq<RecordDefModel>)
    decreases fs,
{
    if fs.len() == 0 {
        (Seq::empty(), defs)
    } else {
        let h = reg_shape(fs[0].1, fs[0].0, false, defs, reserved);
        let r = reg_fields(fs.drop_first(), h.1, reserved);
        (seq![(fs[0].0, h.0)] + r.0, r.1)
    }
}


pub fn node_eq(a: &TypeNode, b: &TypeNode) -> (r: bool)
    ensures
        r == (*a == *b),
    decreases *a,
{
    match (a, b) {
        (TypeNode::Unit, TypeNode::Unit) => true,
        (TypeNode::Bool, TypeNode::Bool) => true,
        (TypeNode::Char, TypeNode::Char) => true,
        (TypeNode::Text, TypeNode::Text) => true,
        (TypeNode::Float, TypeNode::Float) => true,
        (
            TypeNode::Integer { signed: s1, width: w1 },
            TypeNode::Integer { signed: s2, width: w2 },
        ) => *s1 == *s2 && *w1 == *w2,
        (TypeNode::Optional(x), TypeNode::Optional(y)) => node_eq(&**x, &**y),
        (TypeNode::Sequence(x), TypeNode::Sequence(y)) => node_eq(&**x, &**y),
        (TypeNode::Ref(i), TypeNode::Ref(j)) => *i == *j,
        _ => false,
    }
}

pub fn fields_eq(xs: &Vec<(String, TypeNode)>, ys: &Vec<(String, TypeNode)>) -> (r: bool)
    ensures
        r == (nmodel_fields(xs@) == nmodel_fields(ys@)),
{
    proof {
        lemma_nmodel_fields(xs@);
        lemma_nmodel_fields(ys@);
    }
    if xs.len() != ys.len() {
        proof {
            assert(nmodel_fields(xs@).len() != nmodel_fields(ys@).len());
        }
        return false;
    }
    let mut i: usize = 0;
    while i < xs.len()
        invariant
            i <= xs@.len(),
            xs@.len() == ys@.len(),
            nmodel_fields(xs@).len() == xs@.len(),
            nmodel_fields(ys@).len() == ys@.len(),
            forall|j: int|
                0 <= j < xs@.len() ==> nmodel_fields(xs@)[j] == ((#[trigger] xs@[j]).0@,
                xs@[j].1),
            forall|j: int|
                0 <= j < ys@.len() ==> nmodel_fields(ys@)[j] == ((#[trigger] ys@[j]).0@,
                ys@[j].1),
            forall|j: int| 0 <= j < i ==> nmodel_fields(xs@)[j] == nmodel_fields(ys@)[j],
        decreases xs@.len() - i,
    {
        if !(xs[i].0 == ys[i].0) {
            proof {
                assert(nmodel_fields(xs@)[i as int] != nmodel_fields(ys@)[i as int]);
            }
            return false;
        }
        if !node_eq(&xs[i].1, &ys[i].1) {
            proof {
                assert(nmodel_fields(xs@)[i as int] != nmodel_fields(ys@)[i as int]);
            }
            return false;
        }
        i = i + 1;
    }
    proof {
        assert(nmodel_fields(xs@) =~= nmodel_fields(ys@));
    }
    true
}

pub fn exec_find_def(reg: &Registry, fp: &Vec<(String, TypeNode)>) -> (r: Option<usize>)
    ensures
        (r matches Some(i) ==> i < reg.defs@.len() && find_def(
            rmodel(reg.defs@),
            nmodel_fields(fp@),
        ) == Some(i as int)),
        (r is None ==> find_def(rmodel(reg.defs@), nmodel_fields(fp@)) is None),
{
    proof {
        lemma_rmodel(reg.defs@);
    }
    let ghost dm = rmodel(reg.defs@);
    let ghost fpm = nmodel_fields(fp@);
    proof {
        assert(dm.skip(0) =~= dm);
    }
    let mut i: usize = 0;
    while i < reg.defs.len()
        invariant
            i <= reg.defs@.len(),
            dm == rmodel(reg.defs@),
            fpm == nmodel_fields(fp@),
            dm.len() == reg.defs@.len(),
            forall|j: int|
                0 <= j < reg.defs@.len() ==> dm[j] == (#[trigger] reg.defs@[j]).model(),
            find_def(dm, fpm) == (match find_def(dm.skip(i as int), fpm) {
                Option::Some(k) => Option::Some(k + i as int),
                Option::None => Option::None::<int>,
            }),
        decreases reg.defs@.len() - i,
    {
        proof {
            assert(dm.skip(i as int)[0] == dm[i as int]);
            assert(dm.skip(i as int).drop_first() =~= dm.skip(i as int + 1));
        }
        if fields_eq(&reg.defs[i].fields, fp) {
            proof {
                assert(find_def(dm.skip(i as int), fpm) == Option::Some(0int));
            }
            return Some(i);
        }
        i = i + 1;
    }
    proof {
        assert(dm.skip(reg.defs@.len() as int) =~= Seq::<RecordDefModel>::empty());
    }
    None
}

pub fn exec_name_taken(reg: &Registry, n: &String) -> (r: bool)
    ensures
        r == name_taken(rmodel(reg.defs@), reg.reserved@, n@),
{
    proof {
        lemma_rmodel(reg.defs@);
    }
    let ghost dm = rmodel(reg.defs@);
    if reg.reserved == *n {
        return true;
    }
    let mut i: usize = 0;
    while i < reg.defs.len()
        invariant
            i <= reg.defs@.len(),
            dm == rmodel(reg.defs@),
            dm.len() == reg.defs@.len(),
            forall|j: int|
                0 <= j < reg.defs@.len() ==> dm[j] == (#[trigger] reg.defs@[j]).model(),
            forall|j: int| 0 <= j < i ==> (#[trigger] dm[j]).name != n@,
        decreases reg.defs@.len() - i,
    {
        if reg.defs[i].name == *n {
            proof {
                assert(dm[i as int].name == n@);
            }
            return true;
        }
        i = i + 1;
    }
    false
}

pub fn exec_fresh_name(reg: &Registry, base: String) -> (r: String)
    ensures
        r@ == fresh_name(rmodel(reg.defs@), reg.reserved@, base@),
        !name_taken(rmodel(reg.defs@), reg.reserved@, r@),
{
    let ghost dm = rmodel(reg.defs@);
    let ghost res = reg.reserved@;
    let ghost base0 = base@;
    let mut cand = base;
    let mut taken = exec_name_taken(reg, &cand);
    while taken
        invariant
            dm == rmodel(reg.defs@),
            res == reg.reserved@,
            taken == name_taken(dm, res, cand@),
            fresh_name(dm, res, cand@) == fresh_name(dm, res, base0),
        decreases name_len_bound(dm, res) + 1 - cand@.len(),
    {
        proof {
            lemma_taken_len(dm, res, cand@);
        }
        push_char(&mut cand, 'x');
        taken = exec_name_taken(reg, &cand);
    }
    cand
}

/// The executable base name for a nested record.
pub fn make_base_name(field: &String, in_seq: bool) -> (r: String)
    ensures
        r@ == base_name(field@, in_seq),
{
    let f = field.as_str();
    let cased = if in_seq {
        let n = f.unicode_len();
        if n >= 2 && f.get_char(n - 1) == 's' {
            let cut = f.substring_char(0, n - 1);
            proof {
                assert(cut@ =~= singular(field@));
            }
            text::pascal_case(cut)
        } else {
            text::pascal_case(f)
        }
    } else {
        text::pascal_case(f)
    };
    let m = cased.as_str().unicode_len();
    if m == 0 {
        let t = String::from_str("T");
        proof {
            reveal_strlit("T");
            assert(t@ =~= seq!['T'] + text::pascal(
                if in_seq {
                    singular(field@)
                } else {
                    field@
                },
            ));
        }
        t
    } else {
        let c0 = cased.as_str().get_char(0);
        if ('a' <= c0 && c0 <= 'z') || ('A' <= c0 && c0 <= 'Z') {
            cased
        } else {
            let mut t = String::from_str("T");
            t.append(cased.as_str());
            proof {
                reveal_strlit("T");
                assert(t@ =~= seq!['T'] + cased@);
            }
            t
        }
    }
}

/// Executable registration of a record's fields in order, threading the
/// registry, tied exactly to the specification `reg_fields`.
#[verifier::loop_isolation(false)]
pub fn register_fields(fs: &Vec<(String, Shape)>, reg: &mut Registry) -> (nodes: Vec<
    (String, TypeNode),
>)
    ensures
        final(reg).reserved@ == old(reg).reserved@,
        ({
            let r = reg_fields(
                smodel_fields(fs@),
                rmodel(old(reg).defs@),
                old(reg).reserved@,
            );
            nmodel_fields(nodes@) == r.0 && rmodel(final(reg).defs@) == r.1
        }),
    decreases *fs,
{
            let ghost d0 = rmodel(reg.defs@);
            let ghost res = reg.reserved@;
            let ghost fsm = smodel_fields(fs@);
            proof {
                lemma_smodel_fields(fs@);
                assert(fsm.skip(0) =~= fsm);
            }
            let mut nodes: Vec<(String, TypeNode)> = Vec::new();
            let mut i: usize = 0;
            while i < fs.len()
                invariant
                    i <= fs@.len(),
                    reg.reserved@ == res,
                    fsm == smodel_fields(fs@),
                    fsm.len() == fs@.len(),
                    forall|j: int|
                        0 <= j < fs@.len() ==> fsm[j] == ((#[trigger] fs@[j]).0@,
                        fs@[j].1.model()),
                    ({
                        let full = reg_fields(fsm, d0, res);
                        let tail = reg_fields(fsm.skip(i as int), rmodel(reg.defs@), res);
                        full.0 == nmodel_fields(nodes@) + tail.0 && full.1 == tail.1
                    }),
                decreases fs@.len() - i,
            {
                proof {
                    assert(fsm.skip(i as int)[0] == fsm[i as int]);
                    assert(fsm.skip(i as int).drop_first() =~= fsm.skip(i as int + 1));
                    assert(decreases_to!(*fs => fs@));
                    assert(decreases_to!(fs@ => fs@[i as int]));
                    assert(decreases_to!(fs@[i as int] => fs@[i as int].1));
                }
                let t = register_shape(&fs[i].1, &fs[i].0, false, reg);
                let ghost ov = nodes@;
                nodes.push((fs[i].0.clone(), t));
                proof {
                    assert(nodes@.drop_last() =~= ov);
                    let h = (nodes@.last().0@, nodes@.last().1);
                    assert(nmodel_fields(nodes@) =~= nmodel_fields(ov).push(h));
                    assert(nmodel_fields(ov).push(h) =~= nmodel_fields(ov) + seq![h]);
                    let tail1 = reg_fields(fsm.skip(i as int + 1), rmodel(reg.defs@), res);
                    assert(nmodel_fields(ov) + (seq![h] + tail1.0) =~= (nmodel_fields(ov)
                        + seq![h]) + tail1.0);
                }
                i = i + 1;
            }
            proof {
                assert(fsm.skip(fs@.len() as int) =~= Seq::<(Seq<char>, ShapeModel)>::empty());
                assert(nmodel_fields(nodes@) + Seq::<(Seq<char>, TypeNode)>::empty()
                    =~= nmodel_fields(nodes@));
            }
            nodes
}

/// Executable registration, tied exactly to the specification `reg_shape`.
#[verifier::loop_isolation(false)]
pub fn register_shape(s: &Shape, field: &String, in_seq: bool, reg: &mut Registry) -> (t:
    TypeNode)
    ensures
        final(reg).reserved@ == old(reg).reserved@,
        ({
            let r = reg_shape(
                s.model(),
                field@,
                in_seq,
                rmodel(old(reg).defs@),
                old(reg).reserved@,
            );
            t == r.0 && rmodel(final(reg).defs@) == r.1
        }),
    decreases *s,
{
    match s {
        Shape::Unknown => TypeNode::Unit,
        Shape::Unit => TypeNode::Unit,
        Shape::Bool => TypeNode::Bool,
        Shape::Char => TypeNode::Char,
        Shape::Text => TypeNode::Text,
        Shape::Float => TypeNode::Float,
        Shape::Integer(st) => {
            let r = exec_resolve_int(*st);
            TypeNode::Integer { signed: r.0, width: r.1 }
        },
        Shape::Optional(b) => {
            let t = register_shape(&**b, field, in_seq, reg);
            TypeNode::Optional(Box::new(t))
        },
        Shape::Sequence(b) => {
            let t = register_shape(&**b, field, true, reg);
            TypeNode::Sequence(Box::new(t))
        },
        Shape::Record(fs) => {
            let nodes = register_fields(fs, reg);
            let found = exec_find_def(reg, &nodes);
            match found {
                Some(i2) => TypeNode::Ref(i2),
                None => {
                    let base = make_base_name(field, in_seq);
                    let fresh = exec_fresh_name(reg, base);
                    let ghost dpre = rmodel(reg.defs@);
                    proof {
                        lemma_rmodel(reg.defs@);
                    }
                    let idx = reg.defs.len();
                    let ghost dv = reg.defs@;
                    reg.defs.push(RecordDef { name: fresh, fields: nodes });
                    proof {
                        assert(reg.defs@.drop_last() =~= dv);
                        assert(rmodel(reg.defs@) =~= dpre.push(reg.defs@.last().model()));
                    }
                    TypeNode::Ref(idx)
                },
            }
        },
    }
}

} // verus!
