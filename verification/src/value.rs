//! The generic value tree handed in by a format adapter: a closed set of
//! primitive and composite kinds, with record field order preserved as it
//! appeared in the source document.

use vstd::prelude::*;

verus! {

broadcast use vstd::std_specs::vec::axiom_vec_decreases_to_view, vstd::seq::axiom_seq_index_decreases, vstd::seq::axiom_seq_subrange_decreases;

/// An integer observation: a magnitude with a sign. This covers the full
/// range a self-describing document can carry, from `-(2^64 - 1)` up to
/// `2^64 - 1`.
#[derive(Clone, Copy, Debug)]
pub struct IntLit {
    pub negative: bool,
    pub magnitude: u64,
}

impl IntLit {
    /// The mathematical value of the observation.
    pub open spec fn value(self) -> int {
        if self.negative {
            -(self.magnitude as int)
        } else {
            self.magnitude as int
        }
    }

    pub fn from_u64(m: u64) -> (r: IntLit)
        ensures
            r.value() == m as int,
    {
        IntLit { negative: false, magnitude: m }
    }

    pub fn from_i64(v: i64) -> (r: IntLit)
        ensures
            r.value() == v as int,
    {
        if v < 0 {
            if v == i64::MIN {
                IntLit { negative: true, magnitude: 9223372036854775808u64 }
            } else {
                IntLit { negative: true, magnitude: (-v) as u64 }
            }
        } else {
            IntLit { negative: false, magnitude: v as u64 }
        }
    }
}

/// One node of the value tree. A float is carried as its decimal literal
/// text: inference types every float slot uniformly, so only the emitted
/// literal ever reads it.
#[derive(Debug)]
pub enum Value {
    Unit,
    Bool(bool),
    Char(char),
    Integer(IntLit),
    Float(String),
    Text(String),
    Optional(Option<Box<Value>>),
    Sequence(Vec<Value>),
    Record(Vec<(String, Value)>),
}

/// Mathematical form of a value tree: strings become character sequences,
/// vectors become sequences, integer observations become integers. Two
/// structurally identical documents have equal models.
pub enum ValueModel {
    Unit,
    Bool(bool),
    Char(char),
    Integer(int),
    Float(Seq<char>),
    Text(Seq<char>),
    Optional(Option<Box<ValueModel>>),
    Sequence(Seq<ValueModel>),
    Record(Seq<(Seq<char>, ValueModel)>),
}

impl Value {
    pub open spec fn model(self) -> ValueModel
        decreases self,
    {
        match self {
            Value::Unit => ValueModel::Unit,
            Value::Bool(b) => ValueModel::Bool(b),
            Value::Char(c) => ValueModel::Char(c),
            Value::Integer(i) => ValueModel::Integer(i.value()),
            Value::Float(t) => ValueModel::Float(t@),
            Value::Text(t) => ValueModel::Text(t@),
            Value::Optional(o) => ValueModel::Optional(
                match o {
                    Option::None => Option::None,
                    Option::Some(b) => Option::Some(Box::new(b.model())),
                },
            ),
            Value::Sequence(es) => ValueModel::Sequence(model_list(es@)),
            Value::Record(fs) => ValueModel::Record(model_fields(fs@)),
        }
    }
}

pub open spec fn model_list(es: Seq<Value>) -> Seq<ValueModel>
    decreases es,
{
    if es.len() == 0 {
        Seq::empty()
    } else {
        model_list(es.drop_last()).push(es.last().model())
    }
}

pub open spec fn model_fields(fs: Seq<(String, Value)>) -> Seq<(Seq<char>, ValueModel)>
    decreases fs,
{
    if fs.len() == 0 {
        Seq::empty()
    } else {
        model_fields(fs.drop_last()).push((fs.last().0@, fs.last().1.model()))
    }
}

/// The model of a list of values is the list of the models, position by
/// position; likewise for record fields.
pub proof fn lemma_model_list(es: Seq<Value>)
    ensures
        model_list(es).len() == es.len(),
        forall|i: int| 0 <= i < es.len() ==> model_list(es)[i] == (#[trigger] es[i]).model(),
    decreases es,
{
    if es.len() > 0 {
        lemma_model_list(es.drop_last());
        assert forall|i: int| 0 <= i < es.len() implies model_list(es)[i] == (
        #[trigger] es[i]).model() by {
            if i < es.len() - 1 {
                assert(es.drop_last()[i] == es[i]);
                assert(model_list(es)[i] == model_list(es.drop_last())[i]);
            } else {
                assert(es.last() == es[i]);
            }
        }
    }
}

pub proof fn lemma_model_fields(fs: Seq<(String, Value)>)
    ensures
        model_fields(fs).len() == fs.len(),
        forall|i: int|
            0 <= i < fs.len() ==> model_fields(fs)[i] == ((#[trigger] fs[i]).0@, fs[i].1.model()),
    decreases fs,
{
    if fs.len() > 0 {
        lemma_model_fields(fs.drop_last());
        assert forall|i: int|
            0 <= i < fs.len() implies model_fields(fs)[i] == ((#[trigger] fs[i]).0@,
        fs[i].1.model()) by {
            if i < fs.len() - 1 {
                assert(fs.drop_last()[i] == fs[i]);
                assert(model_fields(fs)[i] == model_fields(fs.drop_last())[i]);
            } else {
                assert(fs.last() == fs[i]);
            }
        }
    }
}

} // verus!
