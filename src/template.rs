//! Resolution of a record declaration into one column descriptor per field.
use vstd::prelude::*;

use crate::dtype::{DType, DataType, Field, fields_view};
use crate::error::ConfigError;
use crate::infer::{dtype_for_rtype_opt, infer_dtype_opt};
use crate::options::{Attr, AttrOption};
use crate::rtype::RustType;
use crate::text::{decimal, decimal_text};
use crate::value::{is_storable, storable};

verus! {

/// One field of a record declaration.
#[derive(Debug, PartialEq, Eq)]
pub struct FieldDecl {
    /// The field's name; `None` for a field of a tuple struct.
    pub ident: Option<String>,
    /// The field's declared type.
    pub ty: RustType,
    /// The field's option lists, in the order written.
    pub attrs: Vec<Attr>,
}

/// A record declaration.
#[derive(Debug, PartialEq, Eq)]
pub struct StructDecl {
    pub ident: String,
    /// How many type parameters the declaration has.
    pub type_params: usize,
    pub fields: Vec<FieldDecl>,
}

/// How a field's value is turned into a column entry.
#[derive(Debug, PartialEq, Eq)]
pub enum ConvertInto {
    /// A value conversion into the given type.
    Into(RustType),
    /// A reference conversion into the given type.
    AsRef(RustType),
    /// A custom user-supplied conversion function.
    Custom { fun: String, borrow: bool },
}

/// How a column entry is turned back into a field's value.
#[derive(Debug, PartialEq, Eq)]
pub enum ConvertFrom {
    /// A fallible conversion from the entry.
    TryFrom { borrow: bool },
    /// A custom user-supplied fallible conversion function.
    Custom { fun: String, borrow: bool },
}

/// The resolved descriptor of one field.
#[derive(Debug, PartialEq, Eq)]
pub struct Column {
    pub name: String,
    pub ty: RustType,
    pub dtype: DataType,
    pub optional: bool,
    /// How values are converted on the way into a column.
    pub convert_into: Option<ConvertInto>,
    /// How entries are converted on the way out of a column.
    pub convert_from: Option<ConvertFrom>,
}

/// The resolved descriptors of a record, in declaration order.
#[derive(Debug, PartialEq, Eq)]
pub struct Template {
    pub ident: String,
    pub fields: Vec<Column>,
}

pub ghost struct ColumnModel {
    pub name: Seq<char>,
    pub ty: RustType,
    pub dtype: DType,
    pub optional: bool,
    pub convert_into: Option<ConvertInto>,
    pub convert_from: Option<ConvertFrom>,
}

pub ghost struct TemplateModel {
    pub ident: Seq<char>,
    pub fields: Seq<ColumnModel>,
}

impl View for Column {
    type V = ColumnModel;

    open spec fn view(&self) -> ColumnModel {
        ColumnModel {
            name: self.name@,
            ty: self.ty,
            dtype: self.dtype@,
            optional: self.optional,
            convert_into: self.convert_into,
            convert_from: self.convert_from,
        }
    }
}

impl View for Template {
    type V = TemplateModel;

    open spec fn view(&self) -> TemplateModel {
        TemplateModel { ident: self.ident@, fields: column_models(self.fields@) }
    }
}

pub open spec fn column_models(cs: Seq<Column>) -> Seq<ColumnModel> {
    cs.map_values(|c: Column| c@)
}

pub proof fn lemma_column_models(cs: Seq<Column>)
    ensures
        column_models(cs).len() == cs.len(),
        forall|j: int| 0 <= j < cs.len() ==> #[trigger] column_models(cs)[j] == cs[j]@,
{
}

/// The options of a field's option lists, in the order written.
pub open spec fn attr_options(attrs: Seq<Attr>) -> Seq<AttrOption>
    decreases attrs.len(),
{
    if attrs.len() == 0 {
        Seq::empty()
    } else {
        attrs[0].0@ + attr_options(attrs.subrange(1, attrs.len() as int))
    }
}

/// What a field's options have set so far.
pub ghost struct Slots {
    pub dtype: Option<DType>,
    pub optional: Option<bool>,
    pub into: Option<ConvertInto>,
    pub from: Option<ConvertFrom>,
}

pub open spec fn no_slots() -> Slots {
    Slots { dtype: None, optional: None, into: None, from: None }
}

/// Records one option; setting the same thing twice is an error.
pub open spec fn add_option(s: Slots, o: AttrOption) -> Result<Slots, ConfigError> {
    let dup = Err(ConfigError::DuplicateOption);
    match o {
        AttrOption::Into(t) => if s.into is Some { dup } else {
            Ok(Slots { into: Some(ConvertInto::Into(t)), ..s })
        },
        AttrOption::AsRef(t) => if s.into is Some { dup } else {
            Ok(Slots { into: Some(ConvertInto::AsRef(t)), ..s })
        },
        AttrOption::SerializeWith { fun, borrow } => if s.into is Some { dup } else {
            Ok(Slots { into: Some(ConvertInto::Custom { fun, borrow }), ..s })
        },
        AttrOption::Dtype(d) => if s.dtype is Some { dup } else {
            Ok(Slots { dtype: Some(d@), ..s })
        },
        AttrOption::Optional(b) => if s.optional is Some { dup } else {
            Ok(Slots { optional: Some(b), ..s })
        },
        AttrOption::TryFrom { borrow } => if s.from is Some { dup } else {
            Ok(Slots { from: Some(ConvertFrom::TryFrom { borrow }), ..s })
        },
        AttrOption::DeserializeWith { fun, borrow } => if s.from is Some { dup } else {
            Ok(Slots { from: Some(ConvertFrom::Custom { fun, borrow }), ..s })
        },
    }
}

/// Records the options in order, starting from `s`.
pub open spec fn fold_options(s: Slots, opts: Seq<AttrOption>) -> Result<Slots, ConfigError>
    decreases opts.len(),
{
    if opts.len() == 0 {
        Ok(s)
    } else {
        match add_option(s, opts[0]) {
            Err(e) => Err(e),
            Ok(s2) => fold_options(s2, opts.subrange(1, opts.len() as int)),
        }
    }
}

pub open spec fn explicit_or(given: Option<bool>, inferred: bool) -> bool {
    match given {
        Some(b) => b,
        None => inferred,
    }
}

/// A field's logical type and nullability: an explicit type wins and is not
/// nullable unless stated; else the type is inferred from the target of a
/// value or reference conversion, or else from the field's own type; an
/// explicit `optional` overrides the inferred nullability.
pub open spec fn resolve_type(ty: RustType, s: Slots) -> Result<(DType, bool), ConfigError> {
    match s.dtype {
        Some(d) => Ok((d, explicit_or(s.optional, false))),
        None => match s.into {
            Some(ConvertInto::Custom { .. }) => Err(ConfigError::CustomNeedsDtype),
            Some(ConvertInto::Into(t)) => match infer_dtype_opt(t) {
                Ok((d, o)) => Ok((d, explicit_or(s.optional, o))),
                Err(e) => Err(e),
            },
            Some(ConvertInto::AsRef(t)) => match infer_dtype_opt(t) {
                Ok((d, o)) => Ok((d, explicit_or(s.optional, o))),
                Err(e) => Err(e),
            },
            None => match infer_dtype_opt(ty) {
                Ok((d, o)) => Ok((d, explicit_or(s.optional, o))),
                Err(e) => Err(e),
            },
        },
    }
}

/// A field's column name: its own name, or its position for a tuple struct.
pub open spec fn column_name(idx: nat, ident: Option<String>) -> Seq<char> {
    match ident {
        Some(s) => s@,
        None => decimal(idx),
    }
}

/// The descriptor of the field at position `idx`; a type that no column
/// stores is rejected here, before any row is seen.
pub open spec fn resolve_field(idx: nat, f: FieldDecl) -> Result<ColumnModel, ConfigError> {
    match fold_options(no_slots(), attr_options(f.attrs@)) {
        Err(e) => Err(e),
        Ok(s) => match resolve_type(f.ty, s) {
            Err(e) => Err(e),
            Ok((d, o)) => if !storable(d) {
                Err(ConfigError::UnsupportedType)
            } else {
                Ok(ColumnModel {
                name: column_name(idx, f.ident),
                ty: f.ty,
                dtype: d,
                optional: o,
                convert_into: s.into,
                convert_from: s.from,
            })
            },
        },
    }
}

/// The descriptors of the fields `fs`, the first of which stands at position
/// `idx`; the first field that fails decides the error.
pub open spec fn resolve_fields(idx: nat, fs: Seq<FieldDecl>) -> Result<Seq<ColumnModel>, ConfigError>
    decreases fs.len(),
{
    if fs.len() == 0 {
        Ok(Seq::empty())
    } else {
        match resolve_field(idx, fs[0]) {
            Err(e) => Err(e),
            Ok(c) => match resolve_fields(idx + 1, fs.subrange(1, fs.len() as int)) {
                Err(e) => Err(e),
                Ok(cs) => Ok(seq![c] + cs),
            },
        }
    }
}

/// The resolved layout of a record declaration.
pub open spec fn resolve_struct(d: StructDecl) -> Result<TemplateModel, ConfigError> {
    if d.type_params > 0 {
        Err(ConfigError::GenericParameters)
    } else {
        match resolve_fields(0, d.fields@) {
            Err(e) => Err(e),
            Ok(cs) => Ok(TemplateModel { ident: d.ident@, fields: cs }),
        }
    }
}

pub open spec fn slots_of(
    dtype: Option<DataType>,
    optional: Option<bool>,
    into: Option<ConvertInto>,
    from: Option<ConvertFrom>,
) -> Slots {
    Slots {
        dtype: match dtype {
            Some(d) => Some(d@),
            None => None,
        },
        optional,
        into,
        from,
    }
}

fn collect_options(attrs: Vec<Attr>) -> (r: Vec<AttrOption>)
    ensures
        r@ == attr_options(attrs@),
{
    let mut attrs = attrs;
    let mut opts: Vec<AttrOption> = Vec::new();
    let ghost all = attrs@;
    while attrs.len() > 0
        invariant
            attr_options(all) == opts@ + attr_options(attrs@),
        decreases attrs@.len(),
    {
        let ghost before = attrs@;
        let mut a = attrs.remove(0);
        assert(attrs@ =~= before.subrange(1, before.len() as int));
        let ghost prev = opts@;
        opts.append(&mut a.0);
        assert(opts@ + attr_options(attrs@) =~= prev + attr_options(before));
    }
    assert(opts@ + attr_options(attrs@) =~= opts@);
    opts
}

fn resolve_column(idx: usize, f: FieldDecl) -> (r: Result<Column, ConfigError>)
    ensures
        match r {
            Ok(c) => resolve_field(idx as nat, f) == Ok::<ColumnModel, ConfigError>(c@),
            Err(e) => resolve_field(idx as nat, f) == Err::<ColumnModel, ConfigError>(e),
        },
{
    let FieldDecl { ident, ty, attrs } = f;
    let mut opts = collect_options(attrs);
    let ghost all = opts@;
    let mut dtype: Option<DataType> = None;
    let mut optional: Option<bool> = None;
    let mut convert_into: Option<ConvertInto> = None;
    let mut convert_from: Option<ConvertFrom> = None;
    while opts.len() > 0
        invariant
            all == attr_options(f.attrs@),
            fold_options(no_slots(), all) == fold_options(
                slots_of(dtype, optional, convert_into, convert_from),
                opts@,
            ),
        decreases opts@.len(),
    {
        let ghost before = opts@;
        let ghost s0 = slots_of(dtype, optional, convert_into, convert_from);
        let o = opts.remove(0);
        assert(opts@ =~= before.subrange(1, before.len() as int));
        match o {
            AttrOption::Into(t) => {
                if convert_into.is_some() {
                    return Err(ConfigError::DuplicateOption);
                }
                convert_into = Some(ConvertInto::Into(t));
            },
            AttrOption::AsRef(t) => {
                if convert_into.is_some() {
                    return Err(ConfigError::DuplicateOption);
                }
                convert_into = Some(ConvertInto::AsRef(t));
            },
            AttrOption::SerializeWith { fun, borrow } => {
                if convert_into.is_some() {
                    return Err(ConfigError::DuplicateOption);
                }
                convert_into = Some(ConvertInto::Custom { fun, borrow });
            },
            AttrOption::Dtype(d) => {
                if dtype.is_some() {
                    return Err(ConfigError::DuplicateOption);
                }
                dtype = Some(d);
            },
            AttrOption::Optional(b) => {
                if optional.is_some() {
                    return Err(ConfigError::DuplicateOption);
                }
                optional = Some(b);
            },
            AttrOption::TryFrom { borrow } => {
                if convert_from.is_some() {
                    return Err(ConfigError::DuplicateOption);
                }
                convert_from = Some(ConvertFrom::TryFrom { borrow });
            },
            AttrOption::DeserializeWith { fun, borrow } => {
                if convert_from.is_some() {
                    return Err(ConfigError::DuplicateOption);
                }
                convert_from = Some(ConvertFrom::Custom { fun, borrow });
            },
        }
        assert(add_option(s0, before[0]) == Ok::<Slots, ConfigError>(
            slots_of(dtype, optional, convert_into, convert_from),
        ));
    }
    let ghost s = slots_of(dtype, optional, convert_into, convert_from);
    assert(fold_options(no_slots(), all) == Ok::<Slots, ConfigError>(s));
    let given = optional;
    let (dt, opt) = match dtype {
        Some(d) => {
            let o = match given {
                Some(b) => b,
                None => false,
            };
            (d, o)
        },
        None => {
            let inferred = match &convert_into {
                Some(ConvertInto::Custom { .. }) => {
                    return Err(ConfigError::CustomNeedsDtype);
                },
                Some(ConvertInto::Into(t)) => dtype_for_rtype_opt(t),
                Some(ConvertInto::AsRef(t)) => dtype_for_rtype_opt(t),
                None => dtype_for_rtype_opt(&ty),
            };
            match inferred {
                Ok((d, o)) => {
                    let o = match given {
                        Some(b) => b,
                        None => o,
                    };
                    (d, o)
                },
                Err(e) => {
                    return Err(e);
                },
            }
        },
    };
    if !is_storable(&dt) {
        return Err(ConfigError::UnsupportedType);
    }
    let name = match ident {
        Some(s) => s,
        None => decimal_text(idx),
    };
    Ok(Column { name, ty, dtype: dt, optional: opt, convert_into, convert_from })
}

impl Template {
    /// Resolves a record declaration into one descriptor per field, in
    /// declaration order; the first fault found is returned.
    pub fn parse(decl: StructDecl) -> (r: Result<Template, ConfigError>)
        ensures
            match r {
                Ok(t) => resolve_struct(decl) == Ok::<TemplateModel, ConfigError>(t@),
                Err(e) => resolve_struct(decl) == Err::<TemplateModel, ConfigError>(e),
            },
    {
        if decl.type_params > 0 {
            return Err(ConfigError::GenericParameters);
        }
        let ghost all = decl.fields@;
        let ident = decl.ident;
        let mut fields = decl.fields;
        let n = fields.len();
        let mut cols: Vec<Column> = Vec::new();
        let mut idx: usize = 0;
        proof {
            let r = resolve_fields(0, all);
            if r is Ok {
                assert(column_models(cols@) + r->Ok_0 =~= r->Ok_0);
            }
        }
        while fields.len() > 0
            invariant
                all == decl.fields@,
                decl.type_params == 0,
                all.len() == n,
                idx + fields@.len() == all.len(),
                resolve_fields(0, all) == match resolve_fields(idx as nat, fields@) {
                    Ok(cs) => Ok(column_models(cols@) + cs),
                    Err(e) => Err::<Seq<ColumnModel>, ConfigError>(e),
                },
            decreases fields@.len(),
        {
            let ghost before = fields@;
            let f = fields.remove(0);
            assert(fields@ =~= before.subrange(1, before.len() as int));
            assert(before[0] == f);
            match resolve_column(idx, f) {
                Ok(c) => {
                    let ghost prev = cols@;
                    cols.push(c);
                    proof {
                        let r = resolve_fields(idx as nat + 1, fields@);
                        if r is Ok {
                            assert(column_models(cols@) + r->Ok_0 =~= column_models(prev) + (seq![c@] + r->Ok_0));
                        }
                    }
                },
                Err(e) => {
                    assert(resolve_fields(idx as nat, before) == Err::<Seq<ColumnModel>, ConfigError>(e));
                    return Err(e);
                },
            }
            idx = idx + 1;
        }
        assert(column_models(cols@) + Seq::<ColumnModel>::empty() =~= column_models(cols@));
        assert(resolve_fields(idx as nat, fields@) == Ok::<Seq<ColumnModel>, ConfigError>(Seq::empty()));
        assert(resolve_fields(0, all) == Ok::<Seq<ColumnModel>, ConfigError>(column_models(cols@)));
        Ok(Template { ident, fields: cols })
    }
}

proof fn lemma_resolve_fields_order(idx: nat, fs: Seq<FieldDecl>)
    requires
        resolve_fields(idx, fs) is Ok,
    ensures
        resolve_fields(idx, fs)->Ok_0.len() == fs.len(),
        forall|k: int| 0 <= k < fs.len() ==> {
            let c = #[trigger] resolve_fields(idx, fs)->Ok_0[k];
            c.name == column_name(idx + k as nat, fs[k].ident) && c.ty == fs[k].ty && storable(c.dtype)
        },
    decreases fs.len(),
{
    if fs.len() > 0 {
        let rest = fs.subrange(1, fs.len() as int);
        lemma_resolve_fields_order(idx + 1, rest);
        let cs = resolve_fields(idx, fs)->Ok_0;
        assert forall|k: int| 0 <= k < fs.len() implies {
            let c = #[trigger] cs[k];
            c.name == column_name(idx + k as nat, fs[k].ident) && c.ty == fs[k].ty && storable(c.dtype)
        } by {
            if k > 0 {
                assert(cs[k] == resolve_fields(idx + 1, rest)->Ok_0[k - 1]);
                assert(rest[k - 1] == fs[k]);
                assert(idx + 1 + (k - 1) as nat == idx + k as nat);
            }
        }
    }
}

/// Resolution keeps declaration order: descriptor `j` belongs to field `j`,
/// named after it (or after its position), with its declared type; and every
/// resolved column type can be stored.
pub proof fn lemma_declaration_order(decl: StructDecl, t: TemplateModel)
    requires
        resolve_struct(decl) == Ok::<TemplateModel, ConfigError>(t),
    ensures
        t.fields.len() == decl.fields@.len(),
        forall|j: int| 0 <= j < t.fields.len() ==> (#[trigger] t.fields[j]).name == column_name(
            j as nat,
            decl.fields@[j].ident,
        ) && t.fields[j].ty == decl.fields@[j].ty && storable(t.fields[j].dtype),
{
    lemma_resolve_fields_order(0, decl.fields@);
    assert forall|j: int| 0 <= j < t.fields.len() implies (#[trigger] t.fields[j]).name == column_name(
        j as nat,
        decl.fields@[j].ident,
    ) && t.fields[j].ty == decl.fields@[j].ty && storable(t.fields[j].dtype) by {
        assert(t.fields[j] == resolve_fields(0, decl.fields@)->Ok_0[j]);
        assert(0 + j as nat == j as nat);
    }
}

/// The schema of a layout: each column's name and logical type, in field order.
pub open spec fn schema_of(t: TemplateModel) -> Seq<(Seq<char>, DType)> {
    Seq::new(t.fields.len(), |j: int| (t.fields[j].name, t.fields[j].dtype))
}

impl Template {
    /// The schema: each column's name and logical type, in field order.
    pub fn schema(&self) -> (r: Vec<Field>)
        ensures
            fields_view(r@) == schema_of(self@),
    {
        let mut out: Vec<Field> = Vec::new();
        let mut j: usize = 0;
        while j < self.fields.len()
            invariant
                j <= self.fields@.len(),
                fields_view(out@) == schema_of(self@).take(j as int),
            decreases self.fields@.len() - j,
        {
            proof {
                lemma_column_models(self.fields@);
            }
            let c = &self.fields[j];
            let f = Field { name: c.name.clone(), dtype: c.dtype.copy() };
            let ghost before = out@;
            out.push(f);
            assert(out@.drop_last() =~= before);
            assert(schema_of(self@).take(j + 1) =~= schema_of(self@).take(j as int).push((c.name@, c.dtype@)));
            j = j + 1;
        }
        proof {
            lemma_column_models(self.fields@);
        }
        assert(schema_of(self@).take(j as int) =~= schema_of(self@));
        out
    }
}

} // verus!
