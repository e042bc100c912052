//! The type inferencer: walks a value tree bottom-up and produces its
//! inferred structural shape. Occurrences of one slot are merged by
//! unification: equal scalar kinds merge (integer statistics accumulate), a
//! present and an absent occurrence widen to an optional shape, record
//! occurrences merge field by field, and anything else is a fatal type
//! conflict carrying the slot's field path.

use vstd::prelude::*;
use vstd::string::*;
use crate::error::{Conflict, ConflictModel, Kind};
use crate::numeric::{exec_merge_stats, exec_stats_of, merge_stats, stats_of, IntStats};
use crate::value::{model_fields, model_list, Value, ValueModel};
use crate::value::{lemma_model_fields, lemma_model_list};

verus! {

broadcast use vstd::std_specs::vec::axiom_vec_decreases_to_view, vstd::seq::axiom_seq_index_decreases, vstd::seq::axiom_seq_subrange_decreases;

/// The inferred shape of a slot. `Unknown` is the shape of a slot about
/// which nothing is known yet (an absent optional, an empty sequence); it
/// unifies with everything and is rendered as the unit type in the end.
#[derive(Debug)]
pub enum Shape {
    Unknown,
    Unit,
    Bool,
    Char,
    Text,
    Float,
    Integer(IntStats),
    Optional(Box<Shape>),
    Sequence(Box<Shape>),
    Record(Vec<(String, Shape)>),
}

/// Mathematical form of a shape.
pub enum ShapeModel {
    Unknown,
    Unit,
    Bool,
    Char,
    Text,
    Float,
    Integer(IntStats),
    Optional(Box<ShapeModel>),
    Sequence(Box<ShapeModel>),
    Record(Seq<(Seq<char>, ShapeModel)>),
}

impl Shape {
    pub open spec fn model(self) -> ShapeModel
        decreases self,
    {
        match self {
            Shape::Unknown => ShapeModel::Unknown,
            Shape::Unit => ShapeModel::Unit,
            Shape::Bool => ShapeModel::Bool,
            Shape::Char => ShapeModel::Char,
            Shape::Text => ShapeModel::Text,
            Shape::Float => ShapeModel::Float,
            Shape::Integer(st) => ShapeModel::Integer(st),
            Shape::Optional(b) => ShapeModel::Optional(Box::new(b.model())),
            Shape::Sequence(b) => ShapeModel::Sequence(Box::new(b.model())),
            Shape::Record(fs) => ShapeModel::Record(smodel_fields(fs@)),
        }
    }
}

pub open spec fn smodel_fields(fs: Seq<(String, Shape)>) -> Seq<(Seq<char>, ShapeModel)>
    decreases fs,
{
    if fs.len() == 0 {
        Seq::empty()
    } else {
        smodel_fields(fs.drop_last()).push((fs.last().0@, fs.last().1.model()))
    }
}

pub proof fn lemma_smodel_fields(fs: Seq<(String, Shape)>)
    ensures
        smodel_fields(fs).len() == fs.len(),
        forall|i: int|
            0 <= i < fs.len() ==> smodel_fields(fs)[i] == ((#[trigger] fs[i]).0@,
            fs[i].1.model()),
    decreases fs,
{
    if fs.len() > 0 {
        lemma_smodel_fields(fs.drop_last());
        assert forall|i: int|
            0 <= i < fs.len() implies smodel_fields(fs)[i] == ((#[trigger] fs[i]).0@,
        fs[i].1.model()) by {
            if i < fs.len() - 1 {
                assert(fs.drop_last()[i] == fs[i]);
                assert(smodel_fields(fs)[i] == smodel_fields(fs.drop_last())[i]);
            } else {
                assert(fs.last() == fs[i]);
            }
        }
    }
}

pub open spec fn kind_of(s: ShapeModel) -> Kind {
    match s {
        ShapeModel::Unknown => Kind::Unknown,
        ShapeModel::Unit => Kind::Unit,
        ShapeModel::Bool => Kind::Bool,
        ShapeModel::Char => Kind::Char,
        ShapeModel::Text => Kind::Text,
        ShapeModel::Float => Kind::Float,
        ShapeModel::Integer(_) => Kind::Integer,
        ShapeModel::Optional(_) => Kind::Optional,
        ShapeModel::Sequence(_) => Kind::Sequence,
        ShapeModel::Record(_) => Kind::Record,
    }
}

/// Widening of a shape for a slot that was absent in some occurrence: an
/// already-optional shape stays as it is, anything else is wrapped.
pub open spec fn optionalize(s: ShapeModel) -> ShapeModel {
    if s is Optional {
        s
    } else {
        ShapeModel::Optional(Box::new(s))
    }
}

/// The path marker for descending into sequence elements.
pub open spec fn elem_marker() -> Seq<char> {
    "[]"@
}

/// The model of an executable field path.
pub open spec fn path_model(p: Seq<String>) -> Seq<Seq<char>> {
    Seq::new(p.len(), |i: int| p[i]@)
}

/// First shape bound to `n` in a field list.
pub open spec fn lookup_shape(fs: Seq<(Seq<char>, ShapeModel)>, n: Seq<char>) -> Option<
    ShapeModel,
>
    decreases fs,
{
    if fs.len() == 0 {
        Option::None
    } else if fs[0].0 == n {
        Option::Some(fs[0].1)
    } else {
        lookup_shape(fs.drop_first(), n)
    }
}

pub open spec fn has_name(fs: Seq<(Seq<char>, ShapeModel)>, n: Seq<char>) -> bool {
    lookup_shape(fs, n) is Some
}

/// Unification of two shapes observed at one slot.
pub open spec fn unify(path: Seq<Seq<char>>, a: ShapeModel, b: ShapeModel) -> Result<
    ShapeModel,
    ConflictModel,
>
    decreases a, b,
{
    match (a, b) {
        (ShapeModel::Unknown, _) => Ok(b),
        (_, ShapeModel::Unknown) => Ok(a),
        (ShapeModel::Unit, ShapeModel::Unit) => Ok(ShapeModel::Unit),
        (ShapeModel::Bool, ShapeModel::Bool) => Ok(ShapeModel::Bool),
        (ShapeModel::Char, ShapeModel::Char) => Ok(ShapeModel::Char),
        (ShapeModel::Text, ShapeModel::Text) => Ok(ShapeModel::Text),
        (ShapeModel::Float, ShapeModel::Float) => Ok(ShapeModel::Float),
        (ShapeModel::Integer(x), ShapeModel::Integer(y)) => Ok(
            ShapeModel::Integer(merge_stats(x, y)),
        ),
        (ShapeModel::Optional(x), ShapeModel::Optional(y)) => match unify(path, *x, *y) {
            Ok(t) => Ok(ShapeModel::Optional(Box::new(t))),
            Err(e) => Err(e),
        },
        (ShapeModel::Optional(x), _) => match unify(path, *x, b) {
            Ok(t) => Ok(ShapeModel::Optional(Box::new(t))),
            Err(e) => Err(e),
        },
        (_, ShapeModel::Optional(y)) => match unify(path, a, *y) {
            Ok(t) => Ok(ShapeModel::Optional(Box::new(t))),
            Err(e) => Err(e),
        },
        (ShapeModel::Sequence(x), ShapeModel::Sequence(y)) => match unify(
            path.push(elem_marker()),
            *x,
            *y,
        ) {
            Ok(t) => Ok(ShapeModel::Sequence(Box::new(t))),
            Err(e) => Err(e),
        },
        (ShapeModel::Record(fs), ShapeModel::Record(gs)) => match unify_fields(path, fs, gs) {
            Ok(hs) => Ok(ShapeModel::Record(hs + extra_fields(fs, gs))),
            Err(e) => Err(e),
        },
        _ => Err(ConflictModel { path, left: kind_of(a), right: kind_of(b) }),
    }
}

/// Field-by-field merge of two record occurrences, following the first
/// occurrence's field order: a shared name unifies recursively, a field
/// missing from the second occurrence widens to optional.
pub open spec fn unify_fields(
    path: Seq<Seq<char>>,
    fs: Seq<(Seq<char>, ShapeModel)>,
    gs: Seq<(Seq<char>, ShapeModel)>,
) -> Result<Seq<(Seq<char>, ShapeModel)>, ConflictModel>
    decreases fs, gs,
{
    if fs.len() == 0 {
        Ok(Seq::empty())
    } else {
        let head = match lookup_shape(gs, fs[0].0) {
            Option::None => Ok((fs[0].0, optionalize(fs[0].1))),
            Option::Some(u) => match unify(path.push(fs[0].0), fs[0].1, u) {
                Ok(w) => Ok((fs[0].0, w)),
                Err(e) => Err(e),
            },
        };
        match head {
            Err(e) => Err(e),
            Ok(h) => match unify_fields(path, fs.drop_first(), gs) {
                Err(e) => Err(e),
                Ok(rest) => Ok(seq![h] + rest),
            },
        }
    }
}

/// The fields only the second occurrence has, in its order, widened to
/// optional.
pub open spec fn extra_fields(
    fs: Seq<(Seq<char>, ShapeModel)>,
    gs: Seq<(Seq<char>, ShapeModel)>,
) -> Seq<(Seq<char>, ShapeModel)>
    decreases gs,
{
    if gs.len() == 0 {
        Seq::empty()
    } else if has_name(fs, gs[0].0) {
        extra_fields(fs, gs.drop_first())
    } else {
        seq![(gs[0].0, optionalize(gs[0].1))] + extra_fields(fs, gs.drop_first())
    }
}

/// Inference of one value's shape. Sequence elements are unified pairwise
/// starting from `Unknown`, so an empty sequence infers an unknown element;
/// an absent optional likewise infers an unknown payload.
pub open spec fn infer(path: Seq<Seq<char>>, m: ValueModel) -> Result<ShapeModel, ConflictModel>
    decreases m,
{
    match m {
        ValueModel::Unit => Ok(ShapeModel::Unit),
        ValueModel::Bool(_) => Ok(ShapeModel::Bool),
        ValueModel::Char(_) => Ok(ShapeModel::Char),
        ValueModel::Integer(i) => Ok(ShapeModel::Integer(stats_of(i))),
        ValueModel::Float(_) => Ok(ShapeModel::Float),
        ValueModel::Text(_) => Ok(ShapeModel::Text),
        ValueModel::Optional(o) => match o {
            Option::None => Ok(ShapeModel::Optional(Box::new(ShapeModel::Unknown))),
            Option::Some(b) => match infer(path, *b) {
                Ok(t) => Ok(ShapeModel::Optional(Box::new(t))),
                Err(e) => Err(e),
            },
        },
        ValueModel::Sequence(es) => match infer_elems(
            path.push(elem_marker()),
            ShapeModel::Unknown,
            es,
        ) {
            Ok(t) => Ok(ShapeModel::Sequence(Box::new(t))),
            Err(e) => Err(e),
        },
        ValueModel::Record(fs) => match infer_rec_fields(path, fs) {
            Ok(hs) => Ok(ShapeModel::Record(hs)),
            Err(e) => Err(e),
        },
    }
}

pub open spec fn infer_elems(
    path: Seq<Seq<char>>,
    acc: ShapeModel,
    es: Seq<ValueModel>,
) -> Result<ShapeModel, ConflictModel>
    decreases es,
{
    if es.len() == 0 {
        Ok(acc)
    } else {
        match infer(path, es[0]) {
            Err(e) => Err(e),
            Ok(t) => match unify(path, acc, t) {
                Err(e) => Err(e),
                Ok(acc2) => infer_elems(path, acc2, es.drop_first()),
            },
        }
    }
}

pub open spec fn infer_rec_fields(
    path: Seq<Seq<char>>,
    fs: Seq<(Seq<char>, ValueModel)>,
) -> Result<Seq<(Seq<char>, ShapeModel)>, ConflictModel>
    decreases fs,
{
    if fs.len() == 0 {
        Ok(Seq::empty())
    } else {
        match infer(path.push(fs[0].0), fs[0].1) {
            Err(e) => Err(e),
            Ok(t) => match infer_rec_fields(path, fs.drop_first()) {
                Err(e) => Err(e),
                Ok(rest) => Ok(seq![(fs[0].0, t)] + rest),
            },
        }
    }
}


pub fn kind_of_shape(s: &Shape) -> (r: Kind)
    ensures
        r == kind_of(s.model()),
{
    match s {
        Shape::Unknown => Kind::Unknown,
        Shape::Unit => Kind::Unit,
        Shape::Bool => Kind::Bool,
        Shape::Char => Kind::Char,
        Shape::Text => Kind::Text,
        Shape::Float => Kind::Float,
        Shape::Integer(_) => Kind::Integer,
        Shape::Optional(_) => Kind::Optional,
        Shape::Sequence(_) => Kind::Sequence,
        Shape::Record(_) => Kind::Record,
    }
}

pub fn clone_path(p: &Vec<String>) -> (r: Vec<String>)
    ensures
        path_model(r@) == path_model(p@),
{
    let mut out: Vec<String> = Vec::new();
    let mut i: usize = 0;
    while i < p.len()
        invariant
            i <= p@.len(),
            out@.len() == i,
            forall|j: int| 0 <= j < i ==> (#[trigger] out@[j])@ == p@[j]@,
        decreases p@.len() - i,
    {
        out.push(p[i].clone());
        i = i + 1;
    }
    proof {
        assert(path_model(out@) =~= path_model(p@));
    }
    out
}

pub fn path_with(p: &Vec<String>, n: &String) -> (r: Vec<String>)
    ensures
        path_model(r@) == path_model(p@).push(n@),
{
    let mut out = clone_path(p);
    out.push(n.clone());
    proof {
        assert(path_model(out@) =~= path_model(p@).push(n@));
    }
    out
}

pub fn path_with_marker(p: &Vec<String>) -> (r: Vec<String>)
    ensures
        path_model(r@) == path_model(p@).push(elem_marker()),
{
    let mut out = clone_path(p);
    out.push(String::from_str("[]"));
    proof {
        assert(path_model(out@) =~= path_model(p@).push(elem_marker()));
    }
    out
}

/// A structural copy of a shape: same model, fresh ownership.
#[verifier::loop_isolation(false)]
pub fn copy_shape(s: &Shape) -> (r: Shape)
    ensures
        r.model() == s.model(),
    decreases *s,
{
    match s {
        Shape::Unknown => Shape::Unknown,
        Shape::Unit => Shape::Unit,
        Shape::Bool => Shape::Bool,
        Shape::Char => Shape::Char,
        Shape::Text => Shape::Text,
        Shape::Float => Shape::Float,
        Shape::Integer(st) => Shape::Integer(*st),
        Shape::Optional(b) => Shape::Optional(Box::new(copy_shape(&**b))),
        Shape::Sequence(b) => Shape::Sequence(Box::new(copy_shape(&**b))),
        Shape::Record(fs) => {
            let mut out: Vec<(String, Shape)> = Vec::new();
            let mut i: usize = 0;
            while i < fs.len()
                invariant
                    i <= fs@.len(),
                    smodel_fields(out@) == smodel_fields(fs@.take(i as int)),
                decreases fs@.len() - i,
            {
                proof {
                    assert(decreases_to!(*fs => fs@));
                    assert(decreases_to!(fs@ => fs@[i as int]));
                    assert(decreases_to!(fs@[i as int] => fs@[i as int].1));
                }
                let c = copy_shape(&fs[i].1);
                let ghost ov = out@;
                out.push((fs[i].0.clone(), c));
                proof {
                    assert(out@.drop_last() =~= ov);
                    assert(fs@.take(i as int + 1).drop_last() =~= fs@.take(i as int));
                    assert(fs@.take(i as int + 1).last() == fs@[i as int]);
                    assert(smodel_fields(out@) == smodel_fields(fs@.take(i as int + 1)));
                }
                i = i + 1;
            }
            proof {
                assert(fs@.take(fs@.len() as int) =~= fs@);
            }
            Shape::Record(out)
        },
    }
}

/// Widening of a slot absent in some occurrence, as an owned shape.
pub fn optionalize_shape(t: &Shape) -> (r: Shape)
    ensures
        r.model() == optionalize(t.model()),
{
    match t {
        Shape::Optional(_) => copy_shape(t),
        _ => Shape::Optional(Box::new(copy_shape(t))),
    }
}

/// Index of the first field named `n`, tied to the specification lookup.
pub fn lookup_in(gs: &Vec<(String, Shape)>, n: &String) -> (r: Option<usize>)
    ensures
        (r matches Some(j) ==> j < gs@.len() && lookup_shape(smodel_fields(gs@), n@)
            == Some(gs@[j as int].1.model())),
        (r is None ==> lookup_shape(smodel_fields(gs@), n@) is None),
{
    proof {
        lemma_smodel_fields(gs@);
    }
    let ghost gsm = smodel_fields(gs@);
    proof {
        assert(gsm.skip(0) =~= gsm);
    }
    let mut i: usize = 0;
    while i < gs.len()
        invariant
            i <= gs@.len(),
            gsm == smodel_fields(gs@),
            gsm.len() == gs@.len(),
            forall|j: int|
                0 <= j < gs@.len() ==> gsm[j] == ((#[trigger] gs@[j]).0@, gs@[j].1.model()),
            lookup_shape(gsm, n@) == lookup_shape(gsm.skip(i as int), n@),
        decreases gs@.len() - i,
    {
        proof {
            assert(gsm.skip(i as int)[0] == gsm[i as int]);
            assert(gsm.skip(i as int).drop_first() =~= gsm.skip(i as int + 1));
        }
        if gs[i].0 == *n {
            return Some(i);
        }
        i = i + 1;
    }
    proof {
        assert(gsm.skip(gs@.len() as int) =~= Seq::<(Seq<char>, ShapeModel)>::empty());
    }
    None
}

pub fn contains_name(fs: &Vec<(String, Shape)>, n: &String) -> (r: bool)
    ensures
        r == has_name(smodel_fields(fs@), n@),
{
    let found = lookup_in(fs, n);
    match found {
        Some(_) => true,
        None => false,
    }
}

/// Executable unification, tied exactly to the specification `unify`.
#[verifier::loop_isolation(false)]
pub fn unify_shapes(path: &Vec<String>, a: &Shape, b: &Shape) -> (r: Result<Shape, Conflict>)
    ensures
        (r matches Ok(s) ==> unify(path_model(path@), a.model(), b.model()) == Ok::<
            ShapeModel,
            ConflictModel,
        >(s.model())),
        (r matches Err(c) ==> unify(path_model(path@), a.model(), b.model()) == Err::<
            ShapeModel,
            ConflictModel,
        >(c.model())),
    decreases *a, *b,
{
    match (a, b) {
        (Shape::Unknown, _) => Ok(copy_shape(b)),
        (_, Shape::Unknown) => Ok(copy_shape(a)),
        (Shape::Unit, Shape::Unit) => Ok(Shape::Unit),
        (Shape::Bool, Shape::Bool) => Ok(Shape::Bool),
        (Shape::Char, Shape::Char) => Ok(Shape::Char),
        (Shape::Text, Shape::Text) => Ok(Shape::Text),
        (Shape::Float, Shape::Float) => Ok(Shape::Float),
        (Shape::Integer(x), Shape::Integer(y)) => Ok(Shape::Integer(exec_merge_stats(*x, *y))),
        (Shape::Optional(x), Shape::Optional(y)) => match unify_shapes(path, &**x, &**y) {
            Ok(t) => Ok(Shape::Optional(Box::new(t))),
            Err(e) => Err(e),
        },
        (Shape::Optional(x), _) => match unify_shapes(path, &**x, b) {
            Ok(t) => Ok(Shape::Optional(Box::new(t))),
            Err(e) => Err(e),
        },
        (_, Shape::Optional(y)) => match unify_shapes(path, a, &**y) {
            Ok(t) => Ok(Shape::Optional(Box::new(t))),
            Err(e) => Err(e),
        },
        (Shape::Sequence(x), Shape::Sequence(y)) => {
            let p2 = path_with_marker(path);
            match unify_shapes(&p2, &**x, &**y) {
                Ok(t) => Ok(Shape::Sequence(Box::new(t))),
                Err(e) => Err(e),
            }
        },
        (Shape::Record(fs), Shape::Record(gs)) => {
            let ghost pm = path_model(path@);
            let ghost fsm = smodel_fields(fs@);
            let ghost gsm = smodel_fields(gs@);
            proof {
                lemma_smodel_fields(fs@);
                lemma_smodel_fields(gs@);
            }
            proof {
                assert(fsm.skip(0) =~= fsm);
            }
            let mut out: Vec<(String, Shape)> = Vec::new();
            let mut i: usize = 0;
            while i < fs.len()
                invariant
                    i <= fs@.len(),
                    pm == path_model(path@),
                    fsm == smodel_fields(fs@),
                    gsm == smodel_fields(gs@),
                    fsm.len() == fs@.len(),
                    forall|j: int|
                        0 <= j < fs@.len() ==> fsm[j] == ((#[trigger] fs@[j]).0@,
                        fs@[j].1.model()),
                    unify_fields(pm, fsm, gsm) == (match unify_fields(
                        pm,
                        fsm.skip(i as int),
                        gsm,
                    ) {
                        Ok(rest) => Ok::<_, ConflictModel>(smodel_fields(out@) + rest),
                        Err(e) => Err(e),
                    }),
                decreases fs@.len() - i,
            {
                proof {
                    assert(fsm.skip(i as int)[0] == fsm[i as int]);
                    assert(fsm.skip(i as int).drop_first() =~= fsm.skip(i as int + 1));
                }
                let n = &fs[i].0;
                let found = lookup_in(gs, n);
                let ghost ov = out@;
                match found {
                    None => {
                        let w = optionalize_shape(&fs[i].1);
                        out.push((n.clone(), w));
                    },
                    Some(j) => {
                        let p2 = path_with(path, n);
                        proof {
                            assert(decreases_to!(*fs => fs@));
                            assert(decreases_to!(fs@ => fs@[i as int]));
                            assert(decreases_to!(fs@[i as int] => fs@[i as int].1));
                        }
                        match unify_shapes(&p2, &fs[i].1, &gs[j].1) {
                            Ok(w) => {
                                out.push((n.clone(), w));
                            },
                            Err(e) => {
                                proof {
                                    assert(unify_fields(pm, fsm, gsm) == Err::<
                                        Seq<(Seq<char>, ShapeModel)>,
                                        ConflictModel,
                                    >(e.model()));
                                    assert(unify(path_model(path@), a.model(), b.model())
                                        == Err::<ShapeModel, ConflictModel>(e.model()));
                                }
                                return Err(e);
                            },
                        }
                    },
                }
                proof {
                    assert(out@.drop_last() =~= ov);
                    let h = (out@.last().0@, out@.last().1.model());
                    assert(smodel_fields(out@) =~= smodel_fields(ov).push(h));
                    assert(smodel_fields(ov).push(h) =~= smodel_fields(ov) + seq![h]);
                    if let Ok(rest2) = unify_fields(pm, fsm.skip(i as int + 1), gsm) {
                        assert(smodel_fields(ov) + (seq![h] + rest2) =~= (smodel_fields(ov)
                            + seq![h]) + rest2);
                    }
                    assert(unify_fields(pm, fsm, gsm) == (match unify_fields(
                        pm,
                        fsm.skip(i as int + 1),
                        gsm,
                    ) {
                        Ok(rest) => Ok::<_, ConflictModel>(smodel_fields(out@) + rest),
                        Err(e) => Err(e),
                    }));
                }
                i = i + 1;
            }
            proof {
                assert(fsm.skip(fs@.len() as int) =~= Seq::<(Seq<char>, ShapeModel)>::empty());
                assert(smodel_fields(out@) + Seq::<(Seq<char>, ShapeModel)>::empty()
                    =~= smodel_fields(out@));
            }
            let ghost base = smodel_fields(out@);
            proof {
                assert(gsm.skip(0) =~= gsm);
            }
            let mut k: usize = 0;
            while k < gs.len()
                invariant
                    k <= gs@.len(),
                    pm == path_model(path@),
                    fsm == smodel_fields(fs@),
                    gsm == smodel_fields(gs@),
                    gsm.len() == gs@.len(),
                    forall|j: int|
                        0 <= j < gs@.len() ==> gsm[j] == ((#[trigger] gs@[j]).0@,
                        gs@[j].1.model()),
                    unify_fields(pm, fsm, gsm) == Ok::<_, ConflictModel>(base),
                    base + extra_fields(fsm, gsm) == smodel_fields(out@) + extra_fields(
                        fsm,
                        gsm.skip(k as int),
                    ),
                decreases gs@.len() - k,
            {
                proof {
                    assert(gsm.skip(k as int)[0] == gsm[k as int]);
                    assert(gsm.skip(k as int).drop_first() =~= gsm.skip(k as int + 1));
                }
                let n2 = &gs[k].0;
                let ghost ov2 = out@;
                if !contains_name(fs, n2) {
                    let w2 = optionalize_shape(&gs[k].1);
                    out.push((n2.clone(), w2));
                    proof {
                        assert(out@.drop_last() =~= ov2);
                        assert(smodel_fields(out@) =~= smodel_fields(ov2).push(
                            (out@.last().0@, out@.last().1.model()),
                        ));
                        assert(smodel_fields(ov2) + (seq![smodel_fields(out@).last()]
                            + extra_fields(fsm, gsm.skip(k as int + 1))) =~= smodel_fields(out@)
                            + extra_fields(fsm, gsm.skip(k as int + 1)));
                    }
                }
                k = k + 1;
            }
            proof {
                assert(gsm.skip(gs@.len() as int) =~= Seq::<(Seq<char>, ShapeModel)>::empty());
                assert(smodel_fields(out@) + Seq::<(Seq<char>, ShapeModel)>::empty()
                    =~= smodel_fields(out@));
                assert(smodel_fields(out@) == base + extra_fields(fsm, gsm));
            }
            Ok(Shape::Record(out))
        },
        _ => Err(
            Conflict {
                path: clone_path(path),
                left: kind_of_shape(a),
                right: kind_of_shape(b),
            },
        ),
    }
}

/// Executable inference, tied exactly to the specification `infer`.
#[verifier::loop_isolation(false)]
pub fn infer_value(path: &Vec<String>, v: &Value) -> (r: Result<Shape, Conflict>)
    ensures
        (r matches Ok(s) ==> infer(path_model(path@), v.model()) == Ok::<
            ShapeModel,
            ConflictModel,
        >(s.model())),
        (r matches Err(c) ==> infer(path_model(path@), v.model()) == Err::<
            ShapeModel,
            ConflictModel,
        >(c.model())),
    decreases *v,
{
    match v {
        Value::Unit => Ok(Shape::Unit),
        Value::Bool(_) => Ok(Shape::Bool),
        Value::Char(_) => Ok(Shape::Char),
        Value::Integer(l) => Ok(Shape::Integer(exec_stats_of(*l))),
        Value::Float(_) => Ok(Shape::Float),
        Value::Text(_) => Ok(Shape::Text),
        Value::Optional(o) => match o {
            Option::None => Ok(Shape::Optional(Box::new(Shape::Unknown))),
            Option::Some(b) => match infer_value(path, &**b) {
                Ok(t) => Ok(Shape::Optional(Box::new(t))),
                Err(e) => Err(e),
            },
        },
        Value::Sequence(es) => {
            let ghost pm = path_model(path@);
            let ghost em = model_list(es@);
            proof {
                lemma_model_list(es@);
            }
            let p2 = path_with_marker(path);
            let ghost pm2 = path_model(p2@);
            proof {
                assert(em.skip(0) =~= em);
            }
            let mut acc = Shape::Unknown;
            let mut i: usize = 0;
            while i < es.len()
                invariant
                    i <= es@.len(),
                    pm2 == path_model(p2@),
                    pm2 == path_model(path@).push(elem_marker()),
                    em == model_list(es@),
                    em.len() == es@.len(),
                    forall|j: int| 0 <= j < es@.len() ==> em[j] == (#[trigger] es@[j]).model(),
                    infer_elems(pm2, ShapeModel::Unknown, em) == infer_elems(
                        pm2,
                        acc.model(),
                        em.skip(i as int),
                    ),
                decreases es@.len() - i,
            {
                proof {
                    assert(em.skip(i as int)[0] == em[i as int]);
                    assert(em.skip(i as int).drop_first() =~= em.skip(i as int + 1));
                }
                proof {
                    assert(decreases_to!(*es => es@));
                    assert(decreases_to!(es@ => es@[i as int]));
                }
                match infer_value(&p2, &es[i]) {
                    Err(e) => {
                        proof {
                            assert(infer_elems(pm2, ShapeModel::Unknown, em) == Err::<
                                ShapeModel,
                                ConflictModel,
                            >(e.model()));
                            assert(infer(path_model(path@), v.model()) == Err::<
                                ShapeModel,
                                ConflictModel,
                            >(e.model()));
                        }
                        return Err(e);
                    },
                    Ok(t) => {
                        match unify_shapes(&p2, &acc, &t) {
                            Err(e) => {
                                proof {
                                    assert(infer_elems(pm2, ShapeModel::Unknown, em) == Err::<
                                        ShapeModel,
                                        ConflictModel,
                                    >(e.model()));
                                    assert(infer(path_model(path@), v.model()) == Err::<
                                        ShapeModel,
                                        ConflictModel,
                                    >(e.model()));
                                }
                                return Err(e);
                            },
                            Ok(a2) => {
                                acc = a2;
                            },
                        }
                    },
                }
                i = i + 1;
            }
            proof {
                assert(em.skip(es@.len() as int) =~= Seq::<ValueModel>::empty());
            }
            Ok(Shape::Sequence(Box::new(acc)))
        },
        Value::Record(fs) => {
            let ghost pm = path_model(path@);
            let ghost fm = model_fields(fs@);
            proof {
                lemma_model_fields(fs@);
            }
            proof {
                assert(fm.skip(0) =~= fm);
            }
            let mut out: Vec<(String, Shape)> = Vec::new();
            let mut i: usize = 0;
            while i < fs.len()
                invariant
                    i <= fs@.len(),
                    pm == path_model(path@),
                    fm == model_fields(fs@),
                    fm.len() == fs@.len(),
                    forall|j: int|
                        0 <= j < fs@.len() ==> fm[j] == ((#[trigger] fs@[j]).0@,
                        fs@[j].1.model()),
                    infer_rec_fields(pm, fm) == (match infer_rec_fields(pm, fm.skip(i as int)) {
                        Ok(rest) => Ok::<_, ConflictModel>(smodel_fields(out@) + rest),
                        Err(e) => Err(e),
                    }),
                decreases fs@.len() - i,
            {
                proof {
                    assert(fm.skip(i as int)[0] == fm[i as int]);
                    assert(fm.skip(i as int).drop_first() =~= fm.skip(i as int + 1));
                }
                let n = &fs[i].0;
                let p2 = path_with(path, n);
                let ghost ov = out@;
                proof {
                    assert(decreases_to!(*fs => fs@));
                    assert(decreases_to!(fs@ => fs@[i as int]));
                    assert(decreases_to!(fs@[i as int] => fs@[i as int].1));
                }
                match infer_value(&p2, &fs[i].1) {
                    Err(e) => {
                        proof {
                            assert(infer_rec_fields(pm, fm) == Err::<
                                Seq<(Seq<char>, ShapeModel)>,
                                ConflictModel,
                            >(e.model()));
                            assert(infer(path_model(path@), v.model()) == Err::<
                                ShapeModel,
                                ConflictModel,
                            >(e.model()));
                        }
                        return Err(e);
                    },
                    Ok(t) => {
                        out.push((n.clone(), t));
                    },
                }
                proof {
                    assert(out@.drop_last() =~= ov);
                    let h = (out@.last().0@, out@.last().1.model());
                    assert(smodel_fields(out@) =~= smodel_fields(ov).push(h));
                    assert(smodel_fields(ov).push(h) =~= smodel_fields(ov) + seq![h]);
                    if let Ok(rest2) = infer_rec_fields(pm, fm.skip(i as int + 1)) {
                        assert(smodel_fields(ov) + (seq![h] + rest2) =~= (smodel_fields(ov)
                            + seq![h]) + rest2);
                    }
                    assert(infer_rec_fields(pm, fm) == (match infer_rec_fields(
                        pm,
                        fm.skip(i as int + 1),
                    ) {
                        Ok(rest) => Ok::<_, ConflictModel>(smodel_fields(out@) + rest),
                        Err(e) => Err(e),
                    }));
                }
                i = i + 1;
            }
            proof {
                assert(fm.skip(fs@.len() as int) =~= Seq::<(Seq<char>, ValueModel)>::empty());
                assert(smodel_fields(out@) + Seq::<(Seq<char>, ShapeModel)>::empty()
                    =~= smodel_fields(out@));
            }
            Ok(Shape::Record(out))
        },
    }
}

} // verus!
