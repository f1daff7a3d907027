//! What a generated conversion does to a value.
//!
//! A value is modelled by its variant (none for a struct) and its members.
//! A generated conversion binds the members of its argument and hands each
//! one to `std::convert::Into::into`, whose result becomes the member of the
//! same name or position in the new value. The model leaves that per-member
//! conversion to the caller: a member of the result is the member of the
//! argument that is handed to `into` for it. Where the argument does not fit
//! the pattern (another variant name, other member names or another count),
//! the generated code does not compile against that type, which the model
//! gives as `None`.
use vstd::prelude::*;

use crate::shape::{ConvertData, DataModel, Fields, FieldsModel, Variant, VariantModel};

verus! {

/// The members of a value.
#[derive(Debug, PartialEq)]
pub enum Members<L> {
    Unit,
    Unnamed(Vec<L>),
    Named(Vec<(String, L)>),
}

/// A value of a struct (`variant` is `None`) or of one enum variant.
#[derive(Debug, PartialEq)]
pub struct Value<L> {
    pub variant: Option<String>,
    pub members: Members<L>,
}

/// Mathematical model of [`Members`].
pub enum MembersModel<L> {
    Unit,
    Unnamed(Seq<L>),
    Named(Seq<(Seq<char>, L)>),
}

/// Mathematical model of [`Value`].
pub struct ValueModel<L> {
    pub variant: Option<Seq<char>>,
    pub members: MembersModel<L>,
}

pub open spec fn named_model<L>(ms: Seq<(String, L)>) -> Seq<(Seq<char>, L)> {
    ms.map_values(|p: (String, L)| (p.0@, p.1))
}

impl<L> View for Members<L> {
    type V = MembersModel<L>;

    open spec fn view(&self) -> MembersModel<L> {
        match self {
            Members::Unit => MembersModel::Unit,
            Members::Unnamed(vs) => MembersModel::Unnamed(vs@),
            Members::Named(ms) => MembersModel::Named(named_model(ms@)),
        }
    }
}

impl<L> View for Value<L> {
    type V = ValueModel<L>;

    open spec fn view(&self) -> ValueModel<L> {
        ValueModel {
            variant: match self.variant {
                Some(n) => Some(n@),
                None => None,
            },
            members: self.members@,
        }
    }
}

pub open spec fn distinct_names<L>(ms: Seq<(Seq<char>, L)>) -> bool {
    forall|j: int, k: int| 0 <= j < ms.len() && 0 <= k < ms.len() && j != k ==> ms[j].0 != ms[k].0
}

impl<L> ValueModel<L> {
    /// A value has no two members of one name.
    pub open spec fn wf(self) -> bool {
        match self.members {
            MembersModel::Named(ms) => distinct_names(ms),
            _ => true,
        }
    }
}

/// The first member called `name`.
pub open spec fn find_member<L>(ms: Seq<(Seq<char>, L)>, name: Seq<char>) -> Option<L>
    decreases ms.len(),
{
    if ms.len() == 0 {
        None
    } else if ms[0].0 == name {
        Some(ms[0].1)
    } else {
        find_member(ms.drop_first(), name)
    }
}

/// The members of the first variant called `name`.
pub open spec fn find_variant(vs: Seq<VariantModel>, name: Seq<char>) -> Option<FieldsModel>
    decreases vs.len(),
{
    if vs.len() == 0 {
        None
    } else if vs[0].ident == name {
        Some(vs[0].fields)
    } else {
        find_variant(vs.drop_first(), name)
    }
}

/// A pattern naming `names` takes apart a value with members `ms`: every name
/// is a member and every member is named.
pub open spec fn names_match<L>(names: Seq<Seq<char>>, ms: Seq<(Seq<char>, L)>) -> bool {
    &&& forall|i: int| 0 <= i < names.len() ==> find_member(ms, #[trigger] names[i]) is Some
    &&& forall|k: int| 0 <= k < ms.len() ==> names.contains((#[trigger] ms[k]).0)
}

/// The members built from `m` by a conversion planned for the body `f`.
pub open spec fn convert_members<L>(f: FieldsModel, m: MembersModel<L>) -> Option<MembersModel<L>> {
    match f {
        FieldsModel::Unit => match m {
            MembersModel::Unit => Some(MembersModel::Unit),
            _ => None,
        },
        FieldsModel::Unnamed(n) => match m {
            MembersModel::Unnamed(vs) => if vs.len() == n {
                Some(MembersModel::Unnamed(vs))
            } else {
                None
            },
            _ => None,
        },
        FieldsModel::Named(names) => match m {
            MembersModel::Named(ms) => if names_match(names, ms) {
                Some(
                    MembersModel::Named(
                        Seq::new(names.len(), |i: int| (names[i], find_member(ms, names[i])->Some_0)),
                    ),
                )
            } else {
                None
            },
            _ => None,
        },
    }
}

/// The value that a conversion generated for the body `d` builds from `v`.
pub open spec fn converted<L>(d: DataModel, v: ValueModel<L>) -> Option<ValueModel<L>> {
    match d {
        DataModel::Struct(f) => match v.variant {
            None => match convert_members(f, v.members) {
                Some(m) => Some(ValueModel { variant: None, members: m }),
                None => None,
            },
            Some(_) => None,
        },
        DataModel::Enum(vs) => match v.variant {
            Some(name) => match find_variant(vs, name) {
                Some(f) => match convert_members(f, v.members) {
                    Some(m) => Some(ValueModel { variant: Some(name), members: m }),
                    None => None,
                },
                None => None,
            },
            None => None,
        },
    }
}

/// Two values are equal member by member: the same variant, the same
/// positional members in order, or the same value under each member name.
pub open spec fn same_value<L>(a: ValueModel<L>, b: ValueModel<L>) -> bool {
    &&& a.variant == b.variant
    &&& match (a.members, b.members) {
        (MembersModel::Unit, MembersModel::Unit) => true,
        (MembersModel::Unnamed(x), MembersModel::Unnamed(y)) => x == y,
        (MembersModel::Named(x), MembersModel::Named(y)) => {
            &&& forall|k: int| 0 <= k < x.len() ==> find_member(y, (#[trigger] x[k]).0) == Some(x[k].1)
            &&& forall|k: int| 0 <= k < y.len() ==> find_member(x, (#[trigger] y[k]).0) == Some(y[k].1)
        },
        _ => false,
    }
}

proof fn lemma_find_member_at<L>(ms: Seq<(Seq<char>, L)>, k: int)
    requires
        distinct_names(ms),
        0 <= k < ms.len(),
    ensures
        find_member(ms, ms[k].0) == Some(ms[k].1),
    decreases ms.len(),
{
    if k > 0 {
        let rest = ms.drop_first();
        assert(ms[0].0 != ms[k].0);
        assert(rest[k - 1] == ms[k]);
        lemma_find_member_at(rest, k - 1);
    }
}

proof fn lemma_find_variant_wf(vs: Seq<VariantModel>, name: Seq<char>)
    requires
        DataModel::Enum(vs).wf(),
        find_variant(vs, name) is Some,
    ensures
        find_variant(vs, name)->Some_0.wf(),
    decreases vs.len(),
{
    if vs[0].ident != name {
        let rest = vs.drop_first();
        assert forall|k: int| 0 <= k < rest.len() implies (#[trigger] rest[k]).fields.wf() by {
            assert(rest[k] == vs[k + 1]);
        }
        lemma_find_variant_wf(rest, name);
    }
}

proof fn lemma_named_round_trip<L>(names: Seq<Seq<char>>, ms: Seq<(Seq<char>, L)>)
    requires
        names.no_duplicates(),
        distinct_names(ms),
        names_match(names, ms),
    ensures
        ({
            let w = Seq::new(names.len(), |i: int| (names[i], find_member(ms, names[i])->Some_0));
            &&& convert_members(FieldsModel::Named(names), MembersModel::Named(w)) == Some(
                MembersModel::Named(w),
            )
            &&& forall|k: int| 0 <= k < w.len() ==> find_member(ms, (#[trigger] w[k]).0) == Some(w[k].1)
            &&& forall|k: int| 0 <= k < ms.len() ==> find_member(w, (#[trigger] ms[k]).0) == Some(ms[k].1)
        }),
{
    let w = Seq::new(names.len(), |i: int| (names[i], find_member(ms, names[i])->Some_0));
    assert(distinct_names(w));
    assert forall|i: int| 0 <= i < names.len() implies find_member(w, #[trigger] names[i]) == Some(
        w[i].1,
    ) by {
        lemma_find_member_at(w, i);
    }
    assert forall|k: int| 0 <= k < w.len() implies names.contains((#[trigger] w[k]).0) by {
        assert(names[k] == w[k].0);
    }
    let back = Seq::new(names.len(), |i: int| (names[i], find_member(w, names[i])->Some_0));
    assert(back =~= w);
    assert forall|k: int| 0 <= k < ms.len() implies find_member(w, (#[trigger] ms[k]).0) == Some(
        ms[k].1,
    ) by {
        assert(names.contains(ms[k].0));
        let i = choose|i: int| 0 <= i < names.len() && names[i] == ms[k].0;
        lemma_find_member_at(ms, k);
        assert(find_member(w, names[i]) == Some(w[i].1));
    }
}

/// Converting a value to the declaring type and back gives a value equal to
/// it member by member (with `into` taken as the identity on each member).
/// A `from` and an `into` conversion of one declaration take values apart and
/// rebuild them by the same plan (see `lemma_directions_share_plan`), which
/// `converted` follows; so this is the round trip through a declaration that
/// requests both conversions with one other type.
pub proof fn lemma_round_trip<L>(d: DataModel, v: ValueModel<L>)
    requires
        d.wf(),
        v.wf(),
        converted(d, v) is Some,
    ensures
        converted(d, converted(d, v)->Some_0) matches Some(back) && same_value(back, v),
{
    let f = match d {
        DataModel::Struct(f) => f,
        DataModel::Enum(vs) => {
            lemma_find_variant_wf(vs, v.variant->Some_0);
            find_variant(vs, v.variant->Some_0)->Some_0
        },
    };
    match (f, v.members) {
        (FieldsModel::Named(names), MembersModel::Named(ms)) => {
            lemma_named_round_trip(names, ms);
        },
        _ => {},
    }
}

pub open spec fn names_model(names: Seq<String>) -> Seq<Seq<char>> {
    names.map_values(|s: String| s@)
}

fn find_member_exec<L: Copy>(ms: &Vec<(String, L)>, name: &String) -> (r: Option<L>)
    ensures
        r == find_member(named_model(ms@), name@),
{
    let ghost m = named_model(ms@);
    let mut k: usize = 0;
    assert(m.subrange(0, m.len() as int) =~= m);
    while k < ms.len()
        invariant
            k <= ms.len(),
            m == named_model(ms@),
            find_member(m, name@) == find_member(m.subrange(k as int, m.len() as int), name@),
        decreases ms.len() - k,
    {
        let entry = &ms[k];
        proof {
            assert(m.subrange(k as int, m.len() as int)[0] == m[k as int]);
            assert(m.subrange(k as int, m.len() as int).drop_first() =~= m.subrange(
                k + 1,
                m.len() as int,
            ));
        }
        if entry.0 == *name {
            return Some(entry.1);
        }
        k = k + 1;
    }
    assert(m.subrange(k as int, m.len() as int) =~= seq![]);
    None
}

fn contains_name(names: &Vec<String>, name: &String) -> (r: bool)
    ensures
        r == names_model(names@).contains(name@),
{
    let ghost ns = names_model(names@);
    let mut k: usize = 0;
    while k < names.len()
        invariant
            k <= names.len(),
            ns == names_model(names@),
            forall|t: int| 0 <= t < k ==> ns[t] != name@,
        decreases names.len() - k,
    {
        if names[k] == *name {
            assert(ns[k as int] == name@);
            return true;
        }
        k = k + 1;
    }
    false
}

fn find_variant_exec<'a>(vs: &'a Vec<Variant>, name: &String) -> (r: Option<&'a Fields>)
    ensures
        match r {
            Some(f) => find_variant(vs@.map_values(|v: Variant| v@), name@) == Some(f@),
            None => find_variant(vs@.map_values(|v: Variant| v@), name@) is None,
        },
{
    let ghost m = vs@.map_values(|v: Variant| v@);
    let mut k: usize = 0;
    assert(m.subrange(0, m.len() as int) =~= m);
    while k < vs.len()
        invariant
            k <= vs.len(),
            m == vs@.map_values(|v: Variant| v@),
            find_variant(m, name@) == find_variant(m.subrange(k as int, m.len() as int), name@),
        decreases vs.len() - k,
    {
        proof {
            assert(m.subrange(k as int, m.len() as int)[0] == vs@[k as int]@);
            assert(m.subrange(k as int, m.len() as int).drop_first() =~= m.subrange(
                k + 1,
                m.len() as int,
            ));
        }
        if vs[k].ident == *name {
            return Some(&vs[k].fields);
        }
        k = k + 1;
    }
    assert(m.subrange(k as int, m.len() as int) =~= seq![]);
    None
}

fn convert_named<L: Copy>(names: &Vec<String>, ms: &Vec<(String, L)>) -> (r: Option<Vec<(String, L)>>)
    ensures
        ({
            let ns = names_model(names@);
            let m = named_model(ms@);
            match r {
                Some(out) => names_match(ns, m) && named_model(out@) == Seq::new(
                    ns.len(),
                    |i: int| (ns[i], find_member(m, ns[i])->Some_0),
                ),
                None => !names_match(ns, m),
            }
        }),
{
    let ghost ns = names_model(names@);
    let ghost m = named_model(ms@);
    let mut out: Vec<(String, L)> = Vec::new();
    let mut i: usize = 0;
    while i < names.len()
        invariant
            i <= names.len(),
            ns == names_model(names@),
            m == named_model(ms@),
            forall|t: int| 0 <= t < i ==> find_member(m, #[trigger] ns[t]) is Some,
            named_model(out@) == Seq::new(i as nat, |t: int| (ns[t], find_member(m, ns[t])->Some_0)),
        decreases names.len() - i,
    {
        match find_member_exec(ms, &names[i]) {
            None => {
                assert(find_member(m, ns[i as int]) is None);
                return None;
            },
            Some(value) => {
                let name = names[i].clone();
                assert(ns[i as int] == name@);
                assert(value == find_member(m, ns[i as int])->Some_0);
                let ghost prev = named_model(out@);
                out.push((name, value));
                assert(named_model(out@) =~= prev.push((ns[i as int], value)));
                assert(named_model(out@) =~= Seq::new(
                    (i + 1) as nat,
                    |t: int| (ns[t], find_member(m, ns[t])->Some_0),
                ));
            },
        }
        i = i + 1;
    }
    let mut k: usize = 0;
    while k < ms.len()
        invariant
            k <= ms.len(),
            ns == names_model(names@),
            m == named_model(ms@),
            forall|t: int| 0 <= t < k ==> ns.contains((#[trigger] m[t]).0),
        decreases ms.len() - k,
    {
        if !contains_name(names, &ms[k].0) {
            assert(!ns.contains(m[k as int].0));
            return None;
        }
        k = k + 1;
    }
    Some(out)
}

fn convert_members_exec<L: Copy>(f: &Fields, members: &Members<L>) -> (r: Option<Members<L>>)
    ensures
        match r {
            Some(out) => convert_members(f@, members@) == Some(out@),
            None => convert_members(f@, members@) is None,
        },
{
    match (f, members) {
        (Fields::Unit, Members::Unit) => Some(Members::Unit),
        (Fields::Unnamed(n), Members::Unnamed(vs)) => {
            if vs.len() != *n {
                return None;
            }
            let mut out: Vec<L> = Vec::new();
            let mut k: usize = 0;
            while k < vs.len()
                invariant
                    k <= vs.len(),
                    out@ == vs@.take(k as int),
                decreases vs.len() - k,
            {
                out.push(vs[k]);
                assert(out@ =~= vs@.take(k + 1));
                k = k + 1;
            }
            assert(out@ =~= vs@);
            Some(Members::Unnamed(out))
        },
        (Fields::Named(names), Members::Named(ms)) => match convert_named(names, ms) {
            Some(out) => Some(Members::Named(out)),
            None => None,
        },
        _ => None,
    }
}

impl ConvertData {
    /// Runs a conversion generated for this body on `value`, with `into` left
    /// to the caller: each member of the result is the member of `value`
    /// handed to `into` for it. `None` where `value` does not fit the
    /// conversion's pattern.
    pub fn convert_value<L: Copy>(&self, value: &Value<L>) -> (r: Option<Value<L>>)
        ensures
            match r {
                Some(w) => converted(self@, value@) == Some(w@),
                None => converted(self@, value@) is None,
            },
    {
        match self {
            ConvertData::Struct(f) => match &value.variant {
                Some(_) => None,
                None => match convert_members_exec(f, &value.members) {
                    Some(m) => Some(Value { variant: None, members: m }),
                    None => None,
                },
            },
            ConvertData::Enum(vs) => match &value.variant {
                None => None,
                Some(name) => match find_variant_exec(vs, name) {
                    None => None,
                    Some(f) => match convert_members_exec(f, &value.members) {
                        Some(m) => Some(Value { variant: Some(name.clone()), members: m }),
                        None => None,
                    },
                },
            },
        }
    }
}

} // verus!
