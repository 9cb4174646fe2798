//! The field resolution pipeline: checks the input's shape, resolves every
//! field's type, then extracts each field's rules and modifiers.
use vstd::prelude::*;
use crate::rules::{
    annotation_error, lemma_unknown_keyword_fails, modifier_kind_of, rule_kind_of,
    annotations_describe, collect_annotations, first_annotation_error, Modifier, ValidationRule,
};
use crate::signature::{is_reference_type, resolve_type, signature_of, TypeSignature};
use crate::syntax::{same_field, AnalysisError, Data, DeriveInput, ErrorKind, Field};

verus! {

/// Holds the combined validations and modifiers for one field.
#[derive(Clone, Debug)]
pub struct FieldInformation {
    pub field: Field,
    pub field_type: String,
    pub name: String,
    pub validations: Vec<ValidationRule>,
    pub modifiers: Vec<Modifier>,
}

/// The resolved type of one named field.
#[derive(Clone, Debug)]
pub struct FieldType {
    pub name: String,
    pub signature: TypeSignature,
}

pub open spec fn all_named(fields: Seq<Field>) -> bool {
    forall|i: int| 0 <= i < fields.len() ==> (#[trigger] fields[i]).name is Some
}

pub open spec fn same_fields(a: Seq<Field>, b: Seq<Field>) -> bool {
    &&& a.len() == b.len()
    &&& forall|i: int| 0 <= i < a.len() ==> same_field(#[trigger] a[i], b[i])
}

/// The fields of an eligible input, in declaration order: it must be a struct
/// whose fields all have names.
pub open spec fn fields_of(input: DeriveInput) -> Result<Seq<Field>, AnalysisError> {
    match input.data {
        Data::Struct { fields, span } => if all_named(fields@) {
            Ok(fields@)
        } else {
            Err(AnalysisError { kind: ErrorKind::NamedFieldsRequired, span })
        },
        _ => Err(AnalysisError { kind: ErrorKind::NamedFieldsRequired, span: input.span }),
    }
}

/// The ownership error of a field, if references are not allowed and it is one.
pub open spec fn type_error(f: Field, allow_refs: bool) -> Option<AnalysisError> {
    if is_reference_type(f.ty) && !allow_refs {
        Some(AnalysisError { kind: ErrorKind::OwnedDataRequired, span: f.span })
    } else {
        None
    }
}

/// The first ownership error from field `i` on.
pub open spec fn first_type_error(fields: Seq<Field>, allow_refs: bool, i: int) -> Option<
    AnalysisError,
>
    decreases fields.len() - i,
{
    if i < 0 || i >= fields.len() {
        None
    } else {
        match type_error(fields[i], allow_refs) {
            Some(e) => Some(e),
            None => first_type_error(fields, allow_refs, i + 1),
        }
    }
}

/// The first annotation error from field `i` on.
pub open spec fn first_field_error(fields: Seq<Field>, i: int) -> Option<AnalysisError>
    decreases fields.len() - i,
{
    if i < 0 || i >= fields.len() {
        None
    } else {
        match first_annotation_error(fields[i].attrs@, signature_of(fields[i].ty), 0) {
            Some(e) => Some(e),
            None => first_field_error(fields, i + 1),
        }
    }
}

/// The error that analysis reports: a shape error first, then the first
/// ownership error over all fields, then the first annotation error.
pub open spec fn analysis_error(input: DeriveInput, allow_refs: bool) -> Option<AnalysisError> {
    match fields_of(input) {
        Err(e) => Some(e),
        Ok(fs) => match first_type_error(fs, allow_refs, 0) {
            Some(e) => Some(e),
            None => first_field_error(fs, 0),
        },
    }
}

/// `info` is the descriptor of the error-free field `f`.
pub open spec fn describes_field(info: FieldInformation, f: Field) -> bool {
    &&& same_field(info.field, f)
    &&& f.name is Some
    &&& info.name@ == f.name->Some_0@
    &&& info.field_type@ == signature_of(f.ty)
    &&& annotations_describe(f.attrs@, info.validations@, info.modifiers@)
}

/// `infos` holds one descriptor per field, in declaration order.
pub open spec fn describes_fields(infos: Seq<FieldInformation>, fields: Seq<Field>) -> bool {
    &&& infos.len() == fields.len()
    &&& forall|i: int| 0 <= i < infos.len() ==> describes_field(#[trigger] infos[i], fields[i])
}

impl FieldInformation {
    pub fn new(
        field: Field,
        field_type: String,
        name: String,
        validations: Vec<ValidationRule>,
        modifiers: Vec<Modifier>,
    ) -> (r: Self)
        ensures
            r == (FieldInformation { field, field_type, name, validations, modifiers }),
    {
        FieldInformation { field, field_type, name, validations, modifiers }
    }
}

/// The input's own field list, where the input is a struct with named fields.
fn struct_fields<'a>(input: &'a DeriveInput) -> (r: Result<&'a Vec<Field>, AnalysisError>)
    ensures
        match r {
            Ok(v) => fields_of(*input) == Ok::<Seq<Field>, AnalysisError>(v@),
            Err(e) => fields_of(*input) == Err::<Seq<Field>, AnalysisError>(e),
        },
{
    match &input.data {
        Data::Struct { fields, span } => {
            let mut i: usize = 0;
            while i < fields.len()
                invariant
                    input.data == (Data::Struct { fields: *fields, span: *span }),
                    i <= fields@.len(),
                    forall|j: int| 0 <= j < i ==> (#[trigger] fields@[j]).name is Some,
                decreases fields@.len() - i,
            {
                if fields[i].name.is_none() {
                    assert(!all_named(fields@));
                    return Err(AnalysisError { kind: ErrorKind::NamedFieldsRequired, span: *span });
                }
                i = i + 1;
            }
            Ok(fields)
        },
        _ => Err(AnalysisError { kind: ErrorKind::NamedFieldsRequired, span: input.span }),
    }
}

/// The fields of a struct with named fields, in declaration order.
pub fn collect_fields(input: &DeriveInput) -> (r: Result<Vec<Field>, AnalysisError>)
    ensures
        match r {
            Ok(v) => fields_of(*input) is Ok && same_fields(v@, fields_of(*input)->Ok_0),
            Err(e) => fields_of(*input) == Err::<Seq<Field>, AnalysisError>(e),
        },
{
    let fields = struct_fields(input)?;
    let mut out: Vec<Field> = Vec::new();
    let mut i: usize = 0;
    while i < fields.len()
        invariant
            i <= fields@.len(),
            out@.len() == i,
            forall|j: int| 0 <= j < i ==> same_field(#[trigger] out@[j], fields@[j]),
        decreases fields@.len() - i,
    {
        out.push(fields[i].duplicate());
        i = i + 1;
    }
    Ok(out)
}

/// Finds the type signature of each field. Where `allow_refs` is false, a
/// field whose type is borrowed is an error: modification needs owned data.
pub fn map_field_types(fields: &Vec<Field>, allow_refs: bool) -> (r: Result<
    Vec<FieldType>,
    AnalysisError,
>)
    requires
        all_named(fields@),
    ensures
        match r {
            Ok(types) => {
                &&& first_type_error(fields@, allow_refs, 0) is None
                &&& types@.len() == fields@.len()
                &&& forall|i: int|
                    0 <= i < types@.len() ==> {
                        &&& (#[trigger] types@[i]).name@ == fields@[i].name->Some_0@
                        &&& types@[i].signature.text@ == signature_of(fields@[i].ty)
                        &&& types@[i].signature.is_reference == is_reference_type(fields@[i].ty)
                    }
            },
            Err(e) => first_type_error(fields@, allow_refs, 0) == Some(e),
        },
{
    let mut types: Vec<FieldType> = Vec::new();
    let mut i: usize = 0;
    while i < fields.len()
        invariant
            all_named(fields@),
            i <= fields@.len(),
            first_type_error(fields@, allow_refs, 0) == first_type_error(fields@, allow_refs, i as int),
            types@.len() == i,
            forall|j: int|
                0 <= j < i ==> {
                    &&& (#[trigger] types@[j]).name@ == fields@[j].name->Some_0@
                    &&& types@[j].signature.text@ == signature_of(fields@[j].ty)
                    &&& types@[j].signature.is_reference == is_reference_type(fields@[j].ty)
                },
        decreases fields@.len() - i,
    {
        let field = &fields[i];
        assert(field.name is Some);
        let name = match &field.name {
            Some(n) => n.clone(),
            None => String::new(),
        };
        let signature = resolve_type(&field.ty);
        if signature.is_reference && !allow_refs {
            return Err(AnalysisError { kind: ErrorKind::OwnedDataRequired, span: field.span });
        }
        types.push(FieldType { name, signature });
        i = i + 1;
    }
    Ok(types)
}

/// Collects the rules and modifiers of a field whose type signature is `field_type`.
pub fn collect_field_attributes(field: &Field, field_type: &str) -> (r: Result<
    (Vec<ValidationRule>, Vec<Modifier>),
    AnalysisError,
>)
    requires
        field.name is Some,
    ensures
        match r {
            Ok((rules, mods)) => first_annotation_error(field.attrs@, field_type@, 0) is None
                && annotations_describe(field.attrs@, rules@, mods@),
            Err(e) => first_annotation_error(field.attrs@, field_type@, 0) == Some(e),
        },
{
    collect_annotations(&field.attrs, field_type)
}

/// Analyses every field of a struct with named fields: resolves all the
/// types first, then extracts each field's rules and modifiers. Fails with
/// the first error met.
pub fn collect_field_info(input: &DeriveInput, allow_refs: bool) -> (r: Result<
    Vec<FieldInformation>,
    AnalysisError,
>)
    ensures
        match r {
            Ok(v) => analysis_error(*input, allow_refs) is None && describes_fields(
                v@,
                fields_of(*input)->Ok_0,
            ),
            Err(e) => analysis_error(*input, allow_refs) == Some(e),
        },
{
    let fields = struct_fields(input)?;
    let ghost fs = fields@;
    let field_types = map_field_types(&fields, allow_refs)?;
    let mut infos: Vec<FieldInformation> = Vec::new();
    let mut i: usize = 0;
    while i < fields.len()
        invariant
            fs == fields@,
            fields_of(*input) == Ok::<Seq<Field>, AnalysisError>(fs),
            all_named(fs),
            first_type_error(fs, allow_refs, 0) is None,
            field_types@.len() == fields@.len(),
            forall|j: int|
                0 <= j < field_types@.len() ==> {
                    &&& (#[trigger] field_types@[j]).name@ == fields@[j].name->Some_0@
                    &&& field_types@[j].signature.text@ == signature_of(fields@[j].ty)
                },
            i <= fields@.len(),
            first_field_error(fs, 0) == first_field_error(fs, i as int),
            infos@.len() == i,
            forall|j: int| 0 <= j < i ==> describes_field(#[trigger] infos@[j], fs[j]),
        decreases fields@.len() - i,
    {
        let field = &fields[i];
        let (validations, modifiers) = collect_field_attributes(
            field,
            field_types[i].signature.text.as_str(),
        )?;
        let info = FieldInformation::new(
            field.duplicate(),
            field_types[i].signature.text.clone(),
            field_types[i].name.clone(),
            validations,
            modifiers,
        );
        infos.push(info);
        i = i + 1;
    }
    Ok(infos)
}

proof fn lemma_no_type_error(fields: Seq<Field>, allow_refs: bool, i: int)
    requires
        allow_refs || forall|k: int| 0 <= k < fields.len() ==> !is_reference_type(#[trigger] fields[k].ty),
    ensures
        first_type_error(fields, allow_refs, i) is None,
    decreases fields.len() - i,
{
    if 0 <= i < fields.len() {
        lemma_no_type_error(fields, allow_refs, i + 1);
    }
}

proof fn lemma_no_field_error(fields: Seq<Field>, i: int)
    requires
        forall|k: int| 0 <= k < fields.len() ==> (#[trigger] fields[k]).attrs@.len() == 0,
    ensures
        first_field_error(fields, i) is None,
    decreases fields.len() - i,
{
    if 0 <= i < fields.len() {
        assert(fields[i].attrs@.len() == 0);
        lemma_no_field_error(fields, i + 1);
    }
}

/// A struct whose fields all have names and carry no annotations analyses
/// without error (where references are allowed, or no field is borrowed), and
/// its result holds one descriptor per field, in declaration order, each
/// with no rules and no modifiers.
pub proof fn lemma_plain_struct(input: DeriveInput, allow_refs: bool, infos: Seq<FieldInformation>)
    requires
        fields_of(input) is Ok,
        forall|k: int|
            0 <= k < fields_of(input)->Ok_0.len() ==> (#[trigger] fields_of(input)->Ok_0[k]).attrs@.len()
                == 0,
        allow_refs || forall|k: int|
            0 <= k < fields_of(input)->Ok_0.len() ==> !is_reference_type(
                #[trigger] fields_of(input)->Ok_0[k].ty,
            ),
    ensures
        analysis_error(input, allow_refs) is None,
        describes_fields(infos, fields_of(input)->Ok_0) ==> {
            let fs = fields_of(input)->Ok_0;
            &&& infos.len() == fs.len()
            &&& forall|k: int|
                0 <= k < infos.len() ==> {
                    &&& same_field(#[trigger] infos[k].field, fs[k])
                    &&& infos[k].name@ == fs[k].name->Some_0@
                    &&& infos[k].validations@.len() == 0
                    &&& infos[k].modifiers@.len() == 0
                }
        },
{
    let fs = fields_of(input)->Ok_0;
    lemma_no_type_error(fs, allow_refs, 0);
    lemma_no_field_error(fs, 0);
    if describes_fields(infos, fs) {
        assert forall|k: int| 0 <= k < infos.len() implies {
            &&& same_field(#[trigger] infos[k].field, fs[k])
            &&& infos[k].name@ == fs[k].name->Some_0@
            &&& infos[k].validations@.len() == 0
            &&& infos[k].modifiers@.len() == 0
        } by {
            assert(describes_field(infos[k], fs[k]));
            assert(fs[k].attrs@.len() == 0);
        }
    }
}

proof fn lemma_type_error_reaches(fields: Seq<Field>, i: int, j: int)
    requires
        0 <= j <= i < fields.len(),
        fields[i].ty is Reference,
    ensures
        first_type_error(fields, false, j) is Some,
        (forall|k: int| j <= k < i ==> !is_reference_type(#[trigger] fields[k].ty))
            ==> first_type_error(fields, false, j) == Some(
            AnalysisError { kind: ErrorKind::OwnedDataRequired, span: fields[i].span },
        ),
    decreases i - j,
{
    if j < i {
        lemma_type_error_reaches(fields, i, j + 1);
    }
}

/// A borrowed field always fails analysis when references are not allowed,
/// with an ownership error at that field where no earlier field is borrowed;
/// when references are allowed, no field fails the ownership check.
pub proof fn lemma_reference_field(input: DeriveInput, i: int)
    requires
        fields_of(input) is Ok,
        0 <= i < fields_of(input)->Ok_0.len(),
        fields_of(input)->Ok_0[i].ty is Reference,
    ensures
        analysis_error(input, false) is Some,
        (forall|k: int| 0 <= k < i ==> !is_reference_type(#[trigger] fields_of(input)->Ok_0[k].ty))
            ==> analysis_error(input, false) == Some(
            AnalysisError { kind: ErrorKind::OwnedDataRequired, span: fields_of(input)->Ok_0[i].span },
        ),
        first_type_error(fields_of(input)->Ok_0, true, 0) is None,
{
    let fs = fields_of(input)->Ok_0;
    lemma_type_error_reaches(fs, i, 0);
    lemma_no_type_error(fs, true, 0);
}

proof fn lemma_field_error_reaches(fields: Seq<Field>, i: int, j: int)
    requires
        0 <= j <= i < fields.len(),
        first_annotation_error(fields[i].attrs@, signature_of(fields[i].ty), 0) is Some,
    ensures
        first_field_error(fields, j) is Some,
    decreases i - j,
{
    if j < i {
        lemma_field_error_reaches(fields, i, j + 1);
    }
}

/// An annotation whose keyword names neither a rule nor a modifier makes the
/// whole analysis fail, unless an ownership error is reported before it.
/// Where no field is refused for ownership, no earlier field has a faulty
/// annotation and no earlier annotation of the same field is faulty, the
/// error is an unknown annotation at its span.
pub proof fn lemma_unknown_keyword_fails_analysis(
    input: DeriveInput,
    allow_refs: bool,
    i: int,
    k: int,
)
    requires
        fields_of(input) is Ok,
        0 <= i < fields_of(input)->Ok_0.len(),
        0 <= k < fields_of(input)->Ok_0[i].attrs@.len(),
        rule_kind_of(fields_of(input)->Ok_0[i].attrs@[k].keyword@) is None,
        modifier_kind_of(fields_of(input)->Ok_0[i].attrs@[k].keyword@) is None,
    ensures
        analysis_error(input, allow_refs) is Some,
        ({
            let fs = fields_of(input)->Ok_0;
            &&& first_type_error(fs, allow_refs, 0) is None
            &&& forall|j: int|
                0 <= j < i ==> first_annotation_error(
                    (#[trigger] fs[j]).attrs@,
                    signature_of(fs[j].ty),
                    0,
                ) is None
            &&& forall|m: int|
                0 <= m < k ==> annotation_error(
                    #[trigger] fs[i].attrs@[m],
                    signature_of(fs[i].ty),
                ) is None
        }) ==> analysis_error(input, allow_refs) == Some(
            AnalysisError {
                kind: ErrorKind::UnknownAnnotation,
                span: fields_of(input)->Ok_0[i].attrs@[k].span,
            },
        ),
{
    let fs = fields_of(input)->Ok_0;
    lemma_unknown_keyword_fails(fs[i].attrs@, signature_of(fs[i].ty), k);
    lemma_field_error_reaches(fs, i, 0);
    if forall|j: int|
        0 <= j < i ==> first_annotation_error(
            (#[trigger] fs[j]).attrs@,
            signature_of(fs[j].ty),
            0,
        ) is None {
        lemma_field_error_at(fs, i, 0);
    }
}

proof fn lemma_field_error_at(fields: Seq<Field>, i: int, j: int)
    requires
        0 <= j <= i < fields.len(),
        forall|m: int|
            j <= m < i ==> first_annotation_error(
                (#[trigger] fields[m]).attrs@,
                signature_of(fields[m].ty),
                0,
            ) is None,
    ensures
        first_field_error(fields, j) == first_field_error(fields, i),
    decreases i - j,
{
    if j < i {
        lemma_field_error_at(fields, i, j + 1);
    }
}

} // verus!
