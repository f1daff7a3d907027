//! The members of a declaration: what a conversion reads of the type it is
//! attached to.
use vstd::prelude::*;

use crate::error::ConvertError;

verus! {

/// The members of a struct or of one enum variant.
#[derive(Debug)]
pub enum Fields {
    /// No members.
    Unit,
    /// This many members, known by position only.
    Unnamed(usize),
    /// Named members, in declaration order.
    Named(Vec<String>),
}

/// One variant of an enum.
#[derive(Debug)]
pub struct Variant {
    pub ident: String,
    pub fields: Fields,
}

/// The body of a declaration as read from source.
#[derive(Debug)]
pub enum Data {
    Struct(Fields),
    Enum(Vec<Variant>),
    /// A union: its members share storage, and no conversion can be planned for it.
    Union,
}

/// A declaration body for which conversions can be generated.
#[derive(Debug)]
pub enum ConvertData {
    Struct(Fields),
    Enum(Vec<Variant>),
}

/// Mathematical model of [`Fields`].
pub enum FieldsModel {
    Unit,
    Unnamed(nat),
    Named(Seq<Seq<char>>),
}

/// Mathematical model of [`Variant`].
pub struct VariantModel {
    pub ident: Seq<char>,
    pub fields: FieldsModel,
}

/// Mathematical model of [`ConvertData`].
pub enum DataModel {
    Struct(FieldsModel),
    Enum(Seq<VariantModel>),
}

impl View for Fields {
    type V = FieldsModel;

    open spec fn view(&self) -> FieldsModel {
        match self {
            Fields::Unit => FieldsModel::Unit,
            Fields::Unnamed(n) => FieldsModel::Unnamed(*n as nat),
            Fields::Named(names) => FieldsModel::Named(names@.map_values(|s: String| s@)),
        }
    }
}

impl View for Variant {
    type V = VariantModel;

    open spec fn view(&self) -> VariantModel {
        VariantModel { ident: self.ident@, fields: self.fields@ }
    }
}

impl View for ConvertData {
    type V = DataModel;

    open spec fn view(&self) -> DataModel {
        match self {
            ConvertData::Struct(f) => DataModel::Struct(f@),
            ConvertData::Enum(vs) => DataModel::Enum(vs@.map_values(|v: Variant| v@)),
        }
    }
}

impl FieldsModel {
    /// Member names within one body are pairwise distinct.
    pub open spec fn wf(self) -> bool {
        match self {
            FieldsModel::Named(names) => names.no_duplicates(),
            _ => true,
        }
    }
}

impl DataModel {
    pub open spec fn wf(self) -> bool {
        match self {
            DataModel::Struct(f) => f.wf(),
            DataModel::Enum(vs) => forall|k: int| 0 <= k < vs.len() ==> (#[trigger] vs[k]).fields.wf(),
        }
    }
}

/// The model of a declaration body for which conversions can be generated;
/// `None` for a union.
pub open spec fn convertible(d: Data) -> Option<DataModel> {
    match d {
        Data::Struct(f) => Some(DataModel::Struct(f@)),
        Data::Enum(vs) => Some(DataModel::Enum(vs@.map_values(|v: Variant| v@))),
        Data::Union => None,
    }
}

impl ConvertData {
    /// Accepts a struct or an enum body; a union is refused.
    pub fn from_data(data: Data) -> (r: Result<ConvertData, ConvertError>)
        ensures
            match convertible(data) {
                Some(m) => r matches Ok(c) && c@ == m,
                None => r == Err::<ConvertData, ConvertError>(ConvertError::UnsupportedShapeKind),
            },
    {
        match data {
            Data::Struct(f) => Ok(ConvertData::Struct(f)),
            Data::Enum(vs) => Ok(ConvertData::Enum(vs)),
            Data::Union => Err(ConvertError::UnsupportedShapeKind),
        }
    }
}

} // verus!
