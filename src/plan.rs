//! Planning how a value is taken apart and rebuilt, and rendering that plan
//! as the body of a conversion.
//!
//! A plan binds every member of the source value to a name and builds the
//! destination value from those same names, each passed through
//! `std::convert::Into::into`. Named members are bound under their own names,
//! which is what lets the other type match them by name; positional members
//! are bound to `_0`, `_1`, ...
use vstd::prelude::*;
use vstd::string::*;

use crate::shape::{ConvertData, DataModel, Fields, FieldsModel, Variant, VariantModel};
use crate::text::{decimal, lemma_decimal_injective, push_decimal};

verus! {

/// How a body of members is written in a pattern or a constructor.
pub enum PartsKind {
    Unit,
    Tuple,
    Named,
}

/// One member of the value being built: its name (none for a positional
/// member) and the binding converted into it.
pub struct MemberInit {
    pub member: Option<Seq<char>>,
    pub source: Seq<char>,
}

/// The plan for one body of members.
pub struct PartsPlan {
    pub kind: PartsKind,
    /// The names that the source value's members are bound to, in order.
    pub destruct: Seq<Seq<char>>,
    /// The members of the destination value, in order.
    pub construct: Seq<MemberInit>,
}

/// The plan for one match arm: the variant and its members.
pub struct ArmPlan {
    pub variant: Seq<char>,
    pub parts: PartsPlan,
}

/// The plan for a whole conversion body.
pub enum BodyPlan {
    Struct(PartsPlan),
    Enum(Seq<ArmPlan>),
}

/// The name that positional member `i` is bound to.
pub open spec fn binding_name(i: nat) -> Seq<char> {
    "_"@ + decimal(i)
}

pub open spec fn positional_bindings(n: nat) -> Seq<Seq<char>> {
    Seq::new(n, |i: int| binding_name(i as nat))
}

pub open spec fn named_inits(names: Seq<Seq<char>>) -> Seq<MemberInit> {
    names.map_values(|n: Seq<char>| MemberInit { member: Some(n), source: n })
}

pub open spec fn positional_inits(bindings: Seq<Seq<char>>) -> Seq<MemberInit> {
    bindings.map_values(|b: Seq<char>| MemberInit { member: None, source: b })
}

/// The plan for a body of members.
pub open spec fn parts_plan(f: FieldsModel) -> PartsPlan {
    match f {
        FieldsModel::Unit => PartsPlan { kind: PartsKind::Unit, destruct: seq![], construct: seq![] },
        FieldsModel::Unnamed(n) => PartsPlan {
            kind: PartsKind::Tuple,
            destruct: positional_bindings(n),
            construct: positional_inits(positional_bindings(n)),
        },
        FieldsModel::Named(names) => PartsPlan {
            kind: PartsKind::Named,
            destruct: names,
            construct: named_inits(names),
        },
    }
}

pub open spec fn arm_plan(v: VariantModel) -> ArmPlan {
    ArmPlan { variant: v.ident, parts: parts_plan(v.fields) }
}

/// The plan for a declaration body: one arm per variant, in declaration order.
pub open spec fn body_plan(d: DataModel) -> BodyPlan {
    match d {
        DataModel::Struct(f) => BodyPlan::Struct(parts_plan(f)),
        DataModel::Enum(vs) => BodyPlan::Enum(vs.map_values(|v: VariantModel| arm_plan(v))),
    }
}

pub open spec fn convert_call(source: Seq<char>) -> Seq<char> {
    "std::convert::Into::into("@ + source + ")"@
}

pub open spec fn init_text(m: MemberInit) -> Seq<char> {
    match m.member {
        Some(name) => name + ": "@ + convert_call(m.source),
        None => convert_call(m.source),
    }
}

/// Bindings, each followed by a comma.
pub open spec fn pattern_items(bs: Seq<Seq<char>>) -> Seq<char>
    decreases bs.len(),
{
    if bs.len() == 0 {
        seq![]
    } else {
        pattern_items(bs.drop_last()) + bs.last() + ", "@
    }
}

/// Member initialisers, each followed by a comma.
pub open spec fn construct_items(ms: Seq<MemberInit>) -> Seq<char>
    decreases ms.len(),
{
    if ms.len() == 0 {
        seq![]
    } else {
        construct_items(ms.drop_last()) + init_text(ms.last()) + ", "@
    }
}

pub open spec fn delimit(kind: PartsKind, items: Seq<char>) -> Seq<char> {
    match kind {
        PartsKind::Unit => seq![],
        PartsKind::Tuple => "("@ + items + ")"@,
        PartsKind::Named => "{ "@ + items + "}"@,
    }
}

/// The pattern that takes the source value apart (after the type's path).
pub open spec fn destruct_text(p: PartsPlan) -> Seq<char> {
    delimit(p.kind, pattern_items(p.destruct))
}

/// The expression that builds the destination value (after the type's path).
pub open spec fn construct_text(p: PartsPlan) -> Seq<char> {
    delimit(p.kind, construct_items(p.construct))
}

pub open spec fn struct_body_text(p: PartsPlan, src: Seq<char>, dst: Seq<char>) -> Seq<char> {
    "let "@ + src + " "@ + destruct_text(p) + " = value; "@ + dst + " "@ + construct_text(p)
}

pub open spec fn arm_text(a: ArmPlan, src: Seq<char>, dst: Seq<char>) -> Seq<char> {
    src + "::"@ + a.variant + " "@ + destruct_text(a.parts) + " => "@ + dst + "::"@ + a.variant
        + " "@ + construct_text(a.parts) + ", "@
}

pub open spec fn arms_text(arms: Seq<ArmPlan>, src: Seq<char>, dst: Seq<char>) -> Seq<char>
    decreases arms.len(),
{
    if arms.len() == 0 {
        seq![]
    } else {
        arms_text(arms.drop_last(), src, dst) + arm_text(arms.last(), src, dst)
    }
}

/// The body of a conversion from a value of `src` (bound to `value`) to a
/// value of `dst`.
pub open spec fn body_text(b: BodyPlan, src: Seq<char>, dst: Seq<char>) -> Seq<char> {
    match b {
        BodyPlan::Struct(p) => struct_body_text(p, src, dst),
        BodyPlan::Enum(arms) => "match value { "@ + arms_text(arms, src, dst) + "}"@,
    }
}

/// An `impl From<src> for ident` around `body`.
pub open spec fn from_impl_text(
    ident: Seq<char>,
    generics: Seq<char>,
    src: Seq<char>,
    body: Seq<char>,
) -> Seq<char> {
    "impl"@ + generics + " std::convert::From<"@ + src + "> for "@ + ident + generics
        + " { fn from(value: "@ + src + ") -> Self { "@ + body + " } }\n"@
}

/// An `impl Into<dst> for ident` around `body`.
pub open spec fn into_impl_text(
    ident: Seq<char>,
    generics: Seq<char>,
    dst: Seq<char>,
    body: Seq<char>,
) -> Seq<char> {
    "#[allow(clippy::from_over_into)] impl"@ + generics + " std::convert::Into<"@ + dst
        + "> for "@ + ident + generics + " { fn into(self) -> "@ + dst
        + " { let value = self; "@ + body + " } }\n"@
}

/// The rendered halves of a plan for one body of members.
pub struct ConvertParts {
    pub destruct: String,
    pub construct: String,
}

fn binding_string(i: usize) -> (r: String)
    ensures
        r@ == binding_name(i as nat),
{
    let mut b = String::from_str("_");
    push_decimal(&mut b, i);
    b
}

/// Renders the plan for `fields`.
pub fn fields_convert_parts(fields: &Fields) -> (r: ConvertParts)
    ensures
        r.destruct@ == destruct_text(parts_plan(fields@)),
        r.construct@ == construct_text(parts_plan(fields@)),
{
    match fields {
        Fields::Unit => ConvertParts { destruct: String::new(), construct: String::new() },
        Fields::Unnamed(n) => {
            let ghost bs = positional_bindings(*n as nat);
            let ghost inits = positional_inits(bs);
            let mut d = String::new();
            let mut c = String::new();
            let mut i: usize = 0;
            while i < *n
                invariant
                    i <= *n,
                    bs == positional_bindings(*n as nat),
                    inits == positional_inits(bs),
                    d@ == pattern_items(bs.take(i as int)),
                    c@ == construct_items(inits.take(i as int)),
                decreases *n - i,
            {
                let b = binding_string(i);
                d.append(b.as_str());
                d.append(", ");
                c.append("std::convert::Into::into(");
                c.append(b.as_str());
                c.append(")");
                c.append(", ");
                proof {
                    assert(bs.take(i + 1).drop_last() =~= bs.take(i as int));
                    assert(inits.take(i + 1).drop_last() =~= inits.take(i as int));
                    assert(d@ =~= pattern_items(bs.take(i + 1)));
                    assert(inits.take(i + 1).last() == inits[i as int]);
                    assert(bs[i as int] == b@);
                    assert(init_text(inits[i as int]) == convert_call(b@));
                    assert(c@ =~= construct_items(inits.take(i + 1)));
                }
                i = i + 1;
            }
            assert(bs.take(*n as int) =~= bs);
            assert(inits.take(*n as int) =~= inits);
            let mut dd = String::from_str("(");
            dd.append(d.as_str());
            dd.append(")");
            let mut cc = String::from_str("(");
            cc.append(c.as_str());
            cc.append(")");
            proof {
                assert(dd@ =~= destruct_text(parts_plan(fields@)));
                assert(cc@ =~= construct_text(parts_plan(fields@)));
            }
            ConvertParts { destruct: dd, construct: cc }
        },
        Fields::Named(names) => {
            let ghost ns = names@.map_values(|s: String| s@);
            let ghost inits = named_inits(ns);
            let mut d = String::from_str("{ ");
            let mut c = String::from_str("{ ");
            let mut i: usize = 0;
            while i < names.len()
                invariant
                    i <= names.len(),
                    ns == names@.map_values(|s: String| s@),
                    inits == named_inits(ns),
                    d@ == "{ "@ + pattern_items(ns.take(i as int)),
                    c@ == "{ "@ + construct_items(inits.take(i as int)),
                decreases names.len() - i,
            {
                let name = names[i].as_str();
                d.append(name);
                d.append(", ");
                c.append(name);
                c.append(": ");
                c.append("std::convert::Into::into(");
                c.append(name);
                c.append(")");
                c.append(", ");
                proof {
                    assert(ns.take(i + 1).drop_last() =~= ns.take(i as int));
                    assert(inits.take(i + 1).drop_last() =~= inits.take(i as int));
                    assert(d@ =~= "{ "@ + pattern_items(ns.take(i + 1)));
                    assert(inits.take(i + 1).last() == inits[i as int]);
                    assert(ns[i as int] == name@);
                    assert(init_text(inits[i as int]) == name@ + ": "@ + convert_call(name@));
                    assert(c@ =~= "{ "@ + construct_items(inits.take(i + 1)));
                }
                i = i + 1;
            }
            assert(ns.take(names.len() as int) =~= ns);
            assert(inits.take(names.len() as int) =~= inits);
            d.append("}");
            c.append("}");
            proof {
                assert(d@ =~= destruct_text(parts_plan(fields@)));
                assert(c@ =~= construct_text(parts_plan(fields@)));
            }
            ConvertParts { destruct: d, construct: c }
        },
    }
}

/// Renders the body of a conversion between two structs: bind the members of
/// `value` (a `src_type`), then build a `dst_type`.
pub fn convert_struct(fields: &Fields, src_type: &str, dst_type: &str) -> (r: String)
    ensures
        r@ == body_text(body_plan(DataModel::Struct(fields@)), src_type@, dst_type@),
{
    let parts = fields_convert_parts(fields);
    let mut out = String::from_str("let ");
    out.append(src_type);
    out.append(" ");
    out.append(parts.destruct.as_str());
    out.append(" = value; ");
    out.append(dst_type);
    out.append(" ");
    out.append(parts.construct.as_str());
    assert(out@ =~= body_text(body_plan(DataModel::Struct(fields@)), src_type@, dst_type@));
    out
}

fn push_arm(out: &mut String, variant: &Variant, src_type: &str, dst_type: &str)
    ensures
        final(out)@ == old(out)@ + arm_text(arm_plan(variant@), src_type@, dst_type@),
{
    let parts = fields_convert_parts(&variant.fields);
    let ident = variant.ident.as_str();
    out.append(src_type);
    out.append("::");
    out.append(ident);
    out.append(" ");
    out.append(parts.destruct.as_str());
    out.append(" => ");
    out.append(dst_type);
    out.append("::");
    out.append(ident);
    out.append(" ");
    out.append(parts.construct.as_str());
    out.append(", ");
    assert(out@ =~= old(out)@ + arm_text(arm_plan(variant@), src_type@, dst_type@));
}

/// Renders the body of a conversion between two enums: one match arm per
/// variant, in declaration order, each taking the `src_type` variant apart and
/// building the `dst_type` variant of the same name.
pub fn convert_enum(variants: &Vec<Variant>, src_type: &str, dst_type: &str) -> (r: String)
    ensures
        r@ == body_text(
            body_plan(DataModel::Enum(variants@.map_values(|v: Variant| v@))),
            src_type@,
            dst_type@,
        ),
{
    let ghost vs = variants@.map_values(|v: Variant| v@);
    let ghost arms = vs.map_values(|v: VariantModel| arm_plan(v));
    let mut out = String::from_str("match value { ");
    let mut i: usize = 0;
    while i < variants.len()
        invariant
            i <= variants.len(),
            vs == variants@.map_values(|v: Variant| v@),
            arms == vs.map_values(|v: VariantModel| arm_plan(v)),
            out@ == "match value { "@ + arms_text(arms.take(i as int), src_type@, dst_type@),
        decreases variants.len() - i,
    {
        let variant = &variants[i];
        push_arm(&mut out, variant, src_type, dst_type);
        proof {
            assert(arms.take(i + 1).drop_last() =~= arms.take(i as int));
            assert(arms.take(i + 1).last() == arm_plan(variant@));
            assert(out@ =~= "match value { "@ + arms_text(arms.take(i + 1), src_type@, dst_type@));
        }
        i = i + 1;
    }
    assert(arms.take(variants.len() as int) =~= arms);
    out.append("}");
    assert(out@ =~= body_text(body_plan(DataModel::Enum(vs)), src_type@, dst_type@));
    out
}

/// Renders an `impl From<src_type> for ident` whose `from` runs `body` on its
/// argument `value`.
pub fn template_from(ident: &str, generics: &str, src_type: &str, body: &str) -> (r: String)
    ensures
        r@ == from_impl_text(ident@, generics@, src_type@, body@),
{
    let mut out = String::from_str("impl");
    out.append(generics);
    out.append(" std::convert::From<");
    out.append(src_type);
    out.append("> for ");
    out.append(ident);
    out.append(generics);
    out.append(" { fn from(value: ");
    out.append(src_type);
    out.append(") -> Self { ");
    out.append(body);
    out.append(" } }\n");
    assert(out@ =~= from_impl_text(ident@, generics@, src_type@, body@));
    out
}

/// Renders an `impl Into<dst_type> for ident` whose `into` runs `body` on
/// `self`, bound to `value`.
pub fn template_into(ident: &str, generics: &str, dst_type: &str, body: &str) -> (r: String)
    ensures
        r@ == into_impl_text(ident@, generics@, dst_type@, body@),
{
    let mut out = String::from_str("#[allow(clippy::from_over_into)] impl");
    out.append(generics);
    out.append(" std::convert::Into<");
    out.append(dst_type);
    out.append("> for ");
    out.append(ident);
    out.append(generics);
    out.append(" { fn into(self) -> ");
    out.append(dst_type);
    out.append(" { let value = self; ");
    out.append(body);
    out.append(" } }\n");
    assert(out@ =~= into_impl_text(ident@, generics@, dst_type@, body@));
    out
}

/// For a body of named members, in either direction, the pattern binds
/// exactly the member names, in declaration order, and the constructor fills
/// each of those members, in the same order, from the binding of the same
/// name; as the names are distinct, each is mentioned once on each side.
pub proof fn lemma_named_plan(names: Seq<Seq<char>>)
    requires
        FieldsModel::Named(names).wf(),
    ensures
        ({
            let p = parts_plan(FieldsModel::Named(names));
            &&& p.destruct == names
            &&& p.destruct.no_duplicates()
            &&& p.construct.len() == names.len()
            &&& forall|i: int|
                0 <= i < names.len() ==> (#[trigger] p.construct[i]).member == Some(names[i])
                    && p.construct[i].source == names[i]
        }),
{
}

/// For `n` positional members, the pattern binds `n` positions in order and
/// the constructor fills position `i` from the binding of position `i`; with
/// no members nothing is bound, as for a unit body.
pub proof fn lemma_positional_plan(n: nat)
    ensures
        ({
            let p = parts_plan(FieldsModel::Unnamed(n));
            &&& p.destruct.len() == n
            &&& p.destruct.no_duplicates()
            &&& p.construct.len() == n
            &&& forall|i: int|
                0 <= i < n ==> (#[trigger] p.destruct[i]) == binding_name(i as nat)
                    && p.construct[i].member is None && p.construct[i].source == p.destruct[i]
            &&& n == 0 ==> p.destruct == parts_plan(FieldsModel::Unit).destruct
                && p.construct == parts_plan(FieldsModel::Unit).construct
        }),
{
    let p = parts_plan(FieldsModel::Unnamed(n));
    assert forall|i: int, j: int| 0 <= i < p.destruct.len() && 0 <= j < p.destruct.len() && i != j
        implies p.destruct[i] != p.destruct[j] by {
        if p.destruct[i] == p.destruct[j] {
            reveal_strlit("_");
            assert(p.destruct[i].drop_first() =~= decimal(i as nat));
            assert(p.destruct[j].drop_first() =~= decimal(j as nat));
            lemma_decimal_injective(i as nat, j as nat);
        }
    }
    if n == 0 {
        assert(p.destruct =~= seq![]);
        assert(p.construct =~= seq![]);
    }
}

/// For an enum, the conversion has one arm per variant, in declaration
/// order, each for that variant's own members; no arm names any other
/// variant.
pub proof fn lemma_enum_arms(variants: Seq<VariantModel>)
    ensures
        body_plan(DataModel::Enum(variants)) matches BodyPlan::Enum(arms) && {
            &&& arms.len() == variants.len()
            &&& forall|k: int|
                0 <= k < variants.len() ==> (#[trigger] arms[k]).variant == variants[k].ident
                    && arms[k].parts == parts_plan(variants[k].fields)
            &&& forall|k: int|
                0 <= k < arms.len() ==> variants.map_values(|v: VariantModel| v.ident).contains(
                    (#[trigger] arms[k]).variant,
                )
        },
{
    let arms = variants.map_values(|v: VariantModel| arm_plan(v));
    let idents = variants.map_values(|v: VariantModel| v.ident);
    assert forall|k: int| 0 <= k < arms.len() implies idents.contains(#[trigger] arms[k].variant) by {
        assert(idents[k] == arms[k].variant);
    }
}

} // verus!
