//! The `from` / `into` attributes that request conversions.
use vstd::prelude::*;
use vstd::string::*;

verus! {

/// One attribute attached to a declaration: its path as written (`from`,
/// `doc`, `serde`, ...) and, for an attribute of the form `#[path(...)]`, the
/// text between the parentheses.
#[derive(Debug)]
pub struct Attribute {
    pub path: String,
    pub args: Option<String>,
}

/// One requested conversion, with the path of the other type as written.
#[derive(Debug, PartialEq, Eq)]
pub enum ConvertOpts {
    /// `impl From<path> for Self`: a value of the other type becomes a `Self`.
    From(String),
    /// `impl Into<path> for Self`: a `Self` becomes a value of the other type.
    Into(String),
}

/// Mathematical model of [`ConvertOpts`].
pub enum OptsModel {
    From(Seq<char>),
    Into(Seq<char>),
}

impl View for ConvertOpts {
    type V = OptsModel;

    open spec fn view(&self) -> OptsModel {
        match self {
            ConvertOpts::From(p) => OptsModel::From(p@),
            ConvertOpts::Into(p) => OptsModel::Into(p@),
        }
    }
}

/// Relies on `syn::parse_str::<syn::Path>`, which reports whether the whole of
/// `text` is one path (such as `a::b::C<T>`); on failure the message of syn's
/// error (its `Display`) is handed back. Which texts pass is not stated: syn
/// lexes through proc-macro2, which defers to the compiler's lexer when run
/// inside a procedural macro, so the outcome depends on more than `text`.
#[verifier::external_body]
fn parse_type_path(text: &str) -> (r: Result<(), String>) {
    match syn::parse_str::<syn::Path>(text) {
        Ok(_) => Ok(()),
        Err(e) => Err(e.to_string()),
    }
}

/// The attribute is `from` or `into`: it requests a conversion.
pub open spec fn is_directive_attr(a: Attribute) -> bool {
    a.path@ == "from"@ || a.path@ == "into"@
}

/// The conversion that a `from` / `into` attribute requests, with its
/// argument text as written.
pub open spec fn requested_opts(a: Attribute) -> OptsModel {
    let arg = match a.args {
        Some(s) => s@,
        None => seq![],
    };
    if a.path@ == "from"@ {
        OptsModel::From(arg)
    } else {
        OptsModel::Into(arg)
    }
}

/// The conversions that the `from` / `into` attributes among `attrs` request,
/// in order.
pub open spec fn requested(attrs: Seq<Attribute>) -> Seq<OptsModel>
    decreases attrs.len(),
{
    if attrs.len() == 0 {
        seq![]
    } else if is_directive_attr(attrs.last()) {
        requested(attrs.drop_last()).push(requested_opts(attrs.last()))
    } else {
        requested(attrs.drop_last())
    }
}

fn is_directive(attr: &Attribute) -> (r: bool)
    ensures
        r == is_directive_attr(*attr),
{
    attr.path == String::from_str("from") || attr.path == String::from_str("into")
}

/// Reads one attribute, given `parsed`, the outcome of parsing its argument
/// as a path (looked at only for a `from` / `into` attribute with an
/// argument): `Ok(None)` for any other attribute, an error for a `from` /
/// `into` attribute without an argument or whose argument did not parse
/// (with the parser's message), else the conversion it requests.
pub fn directive_of(attr: &Attribute, parsed: Result<(), String>) -> (r: Result<Option<ConvertOpts>, String>)
    ensures
        !is_directive_attr(*attr) ==> r == Ok::<Option<ConvertOpts>, String>(None),
        is_directive_attr(*attr) && attr.args is None ==> r is Err,
        is_directive_attr(*attr) && attr.args is Some ==> match parsed {
            Err(message) => r == Err::<Option<ConvertOpts>, String>(message),
            Ok(()) => r matches Ok(Some(o)) && o@ == requested_opts(*attr),
        },
{
    if !is_directive(attr) {
        return Ok(None);
    }
    let is_from = attr.path == String::from_str("from");
    match &attr.args {
        None => Err(String::from_str("expected attribute arguments in parentheses")),
        Some(arg) => match parsed {
            Err(message) => Err(message),
            Ok(()) => if is_from {
                Ok(Some(ConvertOpts::From(arg.clone())))
            } else {
                Ok(Some(ConvertOpts::Into(arg.clone())))
            },
        },
    }
}

impl ConvertOpts {
    /// Reads one attribute: `Ok(None)` if it is neither `from` nor `into`;
    /// an error if it is one of them without an argument; otherwise its
    /// argument is parsed as a path, and the result is the conversion it
    /// requests, or the parser's message.
    pub fn from_attribute(attr: &Attribute) -> (r: Result<Option<ConvertOpts>, String>)
        ensures
            !is_directive_attr(*attr) ==> r == Ok::<Option<ConvertOpts>, String>(None),
            is_directive_attr(*attr) && attr.args is None ==> r is Err,
            is_directive_attr(*attr) ==> r is Err || (r matches Ok(Some(o)) && o@ == requested_opts(
                *attr,
            )),
    {
        let parsed = match &attr.args {
            Some(arg) => if is_directive(attr) {
                parse_type_path(arg.as_str())
            } else {
                Ok(())
            },
            None => Ok(()),
        };
        directive_of(attr, parsed)
    }

    /// The type converted from: the other type for `From`, `Self` for `Into`.
    pub fn src_type(&self) -> (r: String)
        ensures
            r@ == match self@ {
                OptsModel::From(p) => p,
                OptsModel::Into(_) => "Self"@,
            },
    {
        match self {
            ConvertOpts::From(source) => source.clone(),
            ConvertOpts::Into(_) => String::from_str("Self"),
        }
    }

    /// The type converted to: `Self` for `From`, the other type for `Into`.
    pub fn dst_type(&self) -> (r: String)
        ensures
            r@ == match self@ {
                OptsModel::From(_) => "Self"@,
                OptsModel::Into(p) => p,
            },
    {
        match self {
            ConvertOpts::From(_) => String::from_str("Self"),
            ConvertOpts::Into(destination) => destination.clone(),
        }
    }
}

} // verus!
