//! A YAML value model that the library owns: what the frontmatter logic reads and
//! writes, held as plain values.

use vstd::prelude::*;

verus! {

/// `serde_yaml::Number`, carried through as it is.
#[verifier::external_type_specification]
#[verifier::external_body]
pub struct ExNumber(serde_yaml::Number);

/// `serde_yaml::value::Tag`, carried through as it is.
#[verifier::external_type_specification]
#[verifier::external_body]
pub struct ExTag(serde_yaml::value::Tag);

/// A YAML value, as a frontmatter holds it.
#[derive(Debug)]
pub enum YamlValue {
    Null,
    Bool(bool),
    Number(serde_yaml::Number),
    String(String),
    Sequence(Vec<YamlValue>),
    Mapping(YamlMapping),
    /// A value with a `!tag`.
    Tagged(serde_yaml::value::Tag, Box<YamlValue>),
}

/// A YAML mapping: its entries in order. Insertion keeps the position of an existing
/// key; removal moves the last entry into the freed place.
#[derive(Debug)]
pub struct YamlMapping {
    pub entries: Vec<(YamlValue, YamlValue)>,
}

/// The mathematical content of a YAML value.
pub enum YamlV {
    Null,
    Bool(bool),
    Num(serde_yaml::Number),
    Str(Seq<char>),
    List(Seq<YamlV>),
    Dict(Seq<(YamlV, YamlV)>),
    Tagged(serde_yaml::value::Tag, Box<YamlV>),
}

/// The content of a value.
pub open spec fn value_view(v: YamlValue) -> YamlV
    decreases v, 0nat,
{
    match v {
        YamlValue::Null => YamlV::Null,
        YamlValue::Bool(b) => YamlV::Bool(b),
        YamlValue::Number(n) => YamlV::Num(n),
        YamlValue::String(s) => YamlV::Str(s@),
        YamlValue::Sequence(items) => {
            proof {
                assert(decreases_to!(items => items@));
            }
            YamlV::List(items_view(items@))
        },
        YamlValue::Mapping(m) => {
            proof {
                assert(decreases_to!(m.entries => m.entries@));
            }
            YamlV::Dict(entries_view(m.entries@))
        },
        YamlValue::Tagged(t, b) => YamlV::Tagged(t, Box::new(value_view(*b))),
    }
}

/// The contents of a list of values.
pub open spec fn items_view(s: Seq<YamlValue>) -> Seq<YamlV>
    decreases s, 0nat,
{
    if s.len() == 0 {
        seq![]
    } else {
        items_view(s.drop_last()).push(value_view(s.last()))
    }
}

/// The contents of a list of entries.
pub open spec fn entries_view(s: Seq<(YamlValue, YamlValue)>) -> Seq<(YamlV, YamlV)>
    decreases s, 0nat,
{
    if s.len() == 0 {
        seq![]
    } else {
        let e = s.last();
        proof {
            assert(decreases_to!(s => e));
        }
        entries_view(s.drop_last()).push((value_view(e.0), value_view(e.1)))
    }
}

impl View for YamlValue {
    type V = YamlV;

    open spec fn view(&self) -> YamlV {
        value_view(*self)
    }
}

impl View for YamlMapping {
    type V = Seq<(YamlV, YamlV)>;

    open spec fn view(&self) -> Seq<(YamlV, YamlV)> {
        entries_view(self.entries@)
    }
}

} // verus!

verus! {

/// The contents of a list of values, element by element.
pub broadcast proof fn lemma_items_view(s: Seq<YamlValue>)
    ensures
        #[trigger] items_view(s).len() == s.len(),
        forall|i: int| 0 <= i < s.len() ==> #[trigger] items_view(s)[i] == value_view(s[i]),
    decreases s.len(),
{
    if s.len() > 0 {
        lemma_items_view(s.drop_last());
    }
}

/// The contents of a list of entries, entry by entry.
pub broadcast proof fn lemma_entries_view(s: Seq<(YamlValue, YamlValue)>)
    ensures
        #[trigger] entries_view(s).len() == s.len(),
        forall|i: int|
            0 <= i < s.len() ==> #[trigger] entries_view(s)[i] == (
                value_view(s[i].0),
                value_view(s[i].1),
            ),
    decreases s.len(),
{
    if s.len() > 0 {
        lemma_entries_view(s.drop_last());
    }
}

/// Pointwise view equality makes the views of two value lists equal.
pub proof fn lemma_items_view_ext(a: Seq<YamlValue>, b: Seq<YamlV>)
    requires
        a.len() == b.len(),
        forall|i: int| 0 <= i < a.len() ==> value_view(#[trigger] a[i]) == b[i],
    ensures
        items_view(a) == b,
{
    lemma_items_view(a);
    assert(items_view(a) =~= b);
}

/// Pointwise view equality makes the views of two entry lists equal.
pub proof fn lemma_entries_view_ext(a: Seq<(YamlValue, YamlValue)>, b: Seq<(YamlV, YamlV)>)
    requires
        a.len() == b.len(),
        forall|i: int|
            0 <= i < a.len() ==> (value_view(#[trigger] a[i].0), value_view(a[i].1)) == b[i],
    ensures
        entries_view(a) == b,
{
    lemma_entries_view(a);
    assert(entries_view(a) =~= b);
}

/// `<serde_yaml::Number as Clone>::clone`: the derived clone of a number is the
/// same number.
#[verifier::external_body]
pub(crate) fn clone_number(n: &serde_yaml::Number) -> (r: serde_yaml::Number)
    ensures
        r == *n,
{
    n.clone()
}

/// `<serde_yaml::value::Tag as Clone>::clone`: the derived clone of a tag is the same
/// tag.
#[verifier::external_body]
fn clone_tag(t: &serde_yaml::value::Tag) -> (r: serde_yaml::value::Tag)
    ensures
        r == *t,
{
    t.clone()
}

impl YamlValue {
    /// A copy with the same content.
    pub fn copy(&self) -> (r: YamlValue)
        ensures
            r@ == self@,
        decreases self,
    {
        match self {
            YamlValue::Null => YamlValue::Null,
            YamlValue::Bool(b) => YamlValue::Bool(*b),
            YamlValue::Number(n) => YamlValue::Number(clone_number(n)),
            YamlValue::String(s) => YamlValue::String(s.clone()),
            YamlValue::Sequence(items) => {
                let mut out: Vec<YamlValue> = Vec::new();
                let mut i: usize = 0;
                while i < items.len()
                    invariant
                        i <= items.len(),
                        out.len() == i,
                        *self == YamlValue::Sequence(*items),
                        forall|j: int| 0 <= j < i ==> value_view(#[trigger] out@[j]) == value_view(items@[j]),
                    decreases items.len() - i,
                {
                    proof {
                        assert(decreases_to!(*self => (*self)->Sequence_0));
                        assert(decreases_to!(items => items@));
                        assert(decreases_to!(items@ => items@[i as int]));
                    }
                    out.push(items[i].copy());
                    i += 1;
                }
                proof {
                    lemma_items_view(items@);
                    lemma_items_view_ext(out@, items_view(items@));
                }
                YamlValue::Sequence(out)
            },
            YamlValue::Mapping(m) => {
                let mut out: Vec<(YamlValue, YamlValue)> = Vec::new();
                let mut i: usize = 0;
                while i < m.entries.len()
                    invariant
                        i <= m.entries.len(),
                        out.len() == i,
                        *self == YamlValue::Mapping(*m),
                        forall|j: int|
                            0 <= j < i ==> (value_view(#[trigger] out@[j].0), value_view(out@[j].1)) == (
                                value_view(m.entries@[j].0),
                                value_view(m.entries@[j].1),
                            ),
                    decreases m.entries.len() - i,
                {
                    proof {
                        assert(decreases_to!(*self => (*self)->Mapping_0));
                        assert(decreases_to!(*m => m.entries));
                        assert(decreases_to!(m.entries => m.entries@));
                        assert(decreases_to!(m.entries@ => m.entries@[i as int]));
                    }
                    let k = m.entries[i].0.copy();
                    let v = m.entries[i].1.copy();
                    out.push((k, v));
                    i += 1;
                }
                proof {
                    lemma_entries_view(m.entries@);
                    lemma_entries_view_ext(out@, entries_view(m.entries@));
                }
                YamlValue::Mapping(YamlMapping { entries: out })
            },
            YamlValue::Tagged(t, b) => YamlValue::Tagged(clone_tag(t), Box::new(b.copy())),
        }
    }
}

} // verus!

