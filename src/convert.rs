//! Generation of all the conversions requested for one declaration.
use vstd::prelude::*;
use vstd::string::*;

use crate::directive::{is_directive_attr, requested, Attribute, ConvertOpts, OptsModel};
use crate::error::ConvertError;
use crate::plan::{
    arm_plan, arms_text, body_plan, body_text, construct_text, convert_enum, destruct_text, parts_plan, convert_struct, from_impl_text, into_impl_text,
    template_from, template_into,
};
use crate::shape::{convertible, ConvertData, Data, DataModel, VariantModel};
use crate::text::concat_tokens;

verus! {

/// A declaration as read from source: its attributes in order, its name, its
/// generic parameters as written (empty if it has none), and its body.
#[derive(Debug)]
pub struct DeriveInput {
    pub attrs: Vec<Attribute>,
    pub ident: String,
    pub generics: String,
    pub data: Data,
}

/// A declaration together with the conversions requested for it.
#[derive(Debug)]
pub struct Convert {
    pub ident: String,
    pub generics: String,
    pub data: ConvertData,
    pub opts: Vec<ConvertOpts>,
}

/// Some attribute among `attrs` is `from` or `into`.
pub open spec fn has_directive_attr(attrs: Seq<Attribute>) -> bool {
    exists|i: int| 0 <= i < attrs.len() && is_directive_attr(#[trigger] attrs[i])
}

/// Every `from` / `into` attribute among the first `n` of `attrs` has an
/// argument.
pub open spec fn args_present(attrs: Seq<Attribute>, n: int) -> bool {
    forall|j: int| 0 <= j < n && is_directive_attr(#[trigger] attrs[j]) ==> attrs[j].args is Some
}

/// `e` is an error that generation for `input` may fail with, whatever the
/// path parser accepts. The body is looked at first, then the attributes in
/// order: a malformed argument is reported at a `from` / `into` attribute, and
/// none before it lacks an argument.
pub open spec fn reports(input: DeriveInput, e: ConvertError) -> bool {
    match e {
        ConvertError::UnsupportedShapeKind => input.data is Union,
        ConvertError::MalformedDirectiveArgument { attribute, .. } => {
            &&& !(input.data is Union)
            &&& attribute < input.attrs.len()
            &&& is_directive_attr(input.attrs@[attribute as int])
            &&& args_present(input.attrs@, attribute as int)
        },
        ConvertError::MissingDirective => !(input.data is Union) && !has_directive_attr(
            input.attrs@,
        ),
    }
}

/// The source text of the conversion `o` for the declaration `ident` with
/// the given generics and body.
pub open spec fn routine_text(
    ident: Seq<char>,
    generics: Seq<char>,
    d: DataModel,
    o: OptsModel,
) -> Seq<char> {
    match o {
        OptsModel::From(p) => from_impl_text(ident, generics, p, body_text(body_plan(d), p, "Self"@)),
        OptsModel::Into(p) => into_impl_text(ident, generics, p, body_text(body_plan(d), "Self"@, p)),
    }
}

/// The conversions `os`, one after the other.
pub open spec fn routines_text(
    ident: Seq<char>,
    generics: Seq<char>,
    d: DataModel,
    os: Seq<OptsModel>,
) -> Seq<char>
    decreases os.len(),
{
    if os.len() == 0 {
        seq![]
    } else {
        routines_text(ident, generics, d, os.drop_last()) + routine_text(
            ident,
            generics,
            d,
            os.last(),
        )
    }
}

/// Both directions of a conversion with the other type `p` render the one
/// plan of the declaration's body: the same patterns and the same
/// constructors, with only the roles of `p` and `Self` swapped.
pub proof fn lemma_directions_share_plan(
    ident: Seq<char>,
    generics: Seq<char>,
    d: DataModel,
    p: Seq<char>,
)
    ensures
        routine_text(ident, generics, d, OptsModel::From(p)) == from_impl_text(
            ident,
            generics,
            p,
            body_text(body_plan(d), p, "Self"@),
        ),
        routine_text(ident, generics, d, OptsModel::Into(p)) == into_impl_text(
            ident,
            generics,
            p,
            body_text(body_plan(d), "Self"@, p),
        ),
        d matches DataModel::Struct(f) ==> {
            let plan = parts_plan(f);
            &&& body_text(body_plan(d), p, "Self"@) == "let "@ + p + " "@ + destruct_text(plan)
                + " = value; "@ + "Self"@ + " "@ + construct_text(plan)
            &&& body_text(body_plan(d), "Self"@, p) == "let "@ + "Self"@ + " "@ + destruct_text(
                plan,
            ) + " = value; "@ + p + " "@ + construct_text(plan)
        },
        d matches DataModel::Enum(vs) ==> {
            let arms = vs.map_values(|v: VariantModel| arm_plan(v));
            &&& body_text(body_plan(d), p, "Self"@) == "match value { "@ + arms_text(arms, p, "Self"@)
                + "}"@
            &&& body_text(body_plan(d), "Self"@, p) == "match value { "@ + arms_text(arms, "Self"@, p)
                + "}"@
        },
{
}

pub open spec fn opts_model(opts: Seq<ConvertOpts>) -> Seq<OptsModel> {
    opts.map_values(|o: ConvertOpts| o@)
}

impl Convert {
    /// Reads a declaration: its body must not be a union, and its attributes
    /// must request at least one conversion, each naming one path.
    pub fn new(input: DeriveInput) -> (r: Result<Convert, ConvertError>)
        ensures
            input.data is Union ==> r == Err::<Convert, ConvertError>(ConvertError::UnsupportedShapeKind),
            !(input.data is Union) && !has_directive_attr(input.attrs@) ==> r == Err::<
                Convert,
                ConvertError,
            >(ConvertError::MissingDirective),
            !args_present(input.attrs@, input.attrs.len() as int) ==> r is Err,
            r matches Err(e) ==> reports(input, e),
            r matches Ok(c) ==> {
                &&& has_directive_attr(input.attrs@)
                &&& c.ident@ == input.ident@
                &&& c.generics@ == input.generics@
                &&& convertible(input.data) == Some(c.data@)
                &&& opts_model(c.opts@) == requested(input.attrs@)
            },
    {
        let data = match ConvertData::from_data(input.data) {
            Ok(d) => d,
            Err(e) => return Err(e),
        };
        let attrs = &input.attrs;
        let mut all_opts: Vec<ConvertOpts> = Vec::new();
        let mut i: usize = 0;
        while i < attrs.len()
            invariant
                i <= attrs.len(),
                attrs@ == input.attrs@,
                convertible(input.data) == Some(data@),
                args_present(attrs@, i as int),
                all_opts.len() == 0 <==> forall|j: int|
                    0 <= j < i ==> !is_directive_attr(#[trigger] attrs@[j]),
                opts_model(all_opts@) == requested(attrs@.take(i as int)),
            decreases attrs.len() - i,
        {
            let found = ConvertOpts::from_attribute(&attrs[i]);
            proof {
                assert(attrs@.take(i + 1).drop_last() =~= attrs@.take(i as int));
                assert(attrs@.take(i + 1).last() == attrs@[i as int]);
            }
            match found {
                Err(message) => {
                    return Err(ConvertError::MalformedDirectiveArgument { attribute: i, message });
                },
                Ok(Some(opts)) => {
                    all_opts.push(opts);
                    assert(opts_model(all_opts@) =~= requested(attrs@.take(i + 1)));
                },
                Ok(None) => {},
            }
            i = i + 1;
        }
        assert(attrs@.take(attrs.len() as int) =~= attrs@);
        if all_opts.len() == 0 {
            return Err(ConvertError::MissingDirective);
        }
        assert(has_directive_attr(attrs@)) by {
            let j = choose|j: int| 0 <= j < attrs.len() && is_directive_attr(attrs@[j]);
        }
        Ok(Convert { ident: input.ident, generics: input.generics, data, opts: all_opts })
    }

    /// The source text of the conversion `opts` for this declaration.
    fn generate(&self, opts: &ConvertOpts) -> (r: String)
        ensures
            r@ == routine_text(self.ident@, self.generics@, self.data@, opts@),
    {
        let src_type = opts.src_type();
        let dst_type = opts.dst_type();
        let body = match &self.data {
            ConvertData::Struct(d) => convert_struct(d, src_type.as_str(), dst_type.as_str()),
            ConvertData::Enum(d) => convert_enum(d, src_type.as_str(), dst_type.as_str()),
        };
        match opts {
            ConvertOpts::From(src) => template_from(
                self.ident.as_str(),
                self.generics.as_str(),
                src.as_str(),
                body.as_str(),
            ),
            ConvertOpts::Into(dst) => template_into(
                self.ident.as_str(),
                self.generics.as_str(),
                dst.as_str(),
                body.as_str(),
            ),
        }
    }

    /// The source text of every requested conversion, in the order the
    /// attributes requested them, one `impl` each.
    pub fn generate_all(&self) -> (r: String)
        ensures
            r@ == routines_text(self.ident@, self.generics@, self.data@, opts_model(self.opts@)),
    {
        let ghost os = opts_model(self.opts@);
        let mut out = String::new();
        let mut i: usize = 0;
        while i < self.opts.len()
            invariant
                i <= self.opts.len(),
                os == opts_model(self.opts@),
                out@ == routines_text(self.ident@, self.generics@, self.data@, os.take(i as int)),
            decreases self.opts.len() - i,
        {
            let routine = self.generate(&self.opts[i]);
            out = concat_tokens(out.as_str(), routine.as_str());
            proof {
                assert(os.take(i + 1).drop_last() =~= os.take(i as int));
                assert(os.take(i + 1).last() == self.opts@[i as int]@);
            }
            i = i + 1;
        }
        assert(os.take(self.opts.len() as int) =~= os);
        out
    }
}

/// Generates the source text of every conversion that `input` requests, or
/// the error that stops generation; no text is produced on failure.
pub fn convert_by_name(input: DeriveInput) -> (r: Result<String, ConvertError>)
    ensures
        input.data is Union ==> r == Err::<String, ConvertError>(ConvertError::UnsupportedShapeKind),
        !(input.data is Union) && !has_directive_attr(input.attrs@) ==> r == Err::<
            String,
            ConvertError,
        >(ConvertError::MissingDirective),
        !args_present(input.attrs@, input.attrs.len() as int) ==> r is Err,
        r matches Err(e) ==> reports(input, e),
        r matches Ok(text) ==> has_directive_attr(input.attrs@) && text@ == routines_text(
            input.ident@,
            input.generics@,
            convertible(input.data)->Some_0,
            requested(input.attrs@),
        ),
{
    match Convert::new(input) {
        Ok(c) => Ok(c.generate_all()),
        Err(e) => Err(e),
    }
}

} // verus!
