//! The parts of a derive input that field analysis reads, held as plain values.
use vstd::prelude::*;

verus! {

/// Identifies a node of the input so that an error can be reported where it arose.
#[derive(Clone, Copy, Debug, PartialEq, Eq, Structural)]
pub struct Span {
    pub id: usize,
}

/// The shape of a field's declared type, with the printed tokens of the part
/// that its signature is computed from.
#[derive(Clone, Debug)]
pub enum TypeExpr {
    /// A named or path type: `text` is the whole path.
    Path { text: String },
    /// A reference: `elem` is the referenced type, `lifetime` whether one is written.
    Reference { lifetime: bool, elem: String },
    /// A grouped type: `elem` is the type inside the group.
    Group { elem: String },
    /// Any other type form, printed whole.
    Other { text: String },
}

/// The value given to one argument of an annotation.
#[derive(Clone, Debug)]
pub enum ArgValue {
    Text(String),
    Number(i64),
    /// A decimal number, as its literal is written.
    Decimal(String),
}

/// One `name = value` argument of an annotation.
#[derive(Clone, Debug)]
pub struct AnnotationArg {
    pub name: String,
    pub value: ArgValue,
    pub span: Span,
}

/// One annotation on a field: a keyword and its arguments.
#[derive(Clone, Debug)]
pub struct Annotation {
    pub keyword: String,
    pub args: Vec<AnnotationArg>,
    pub span: Span,
}

/// One field of a structure.
#[derive(Clone, Debug)]
pub struct Field {
    pub name: Option<String>,
    pub ty: TypeExpr,
    pub attrs: Vec<Annotation>,
    pub span: Span,
}

/// The body of the item under analysis.
#[derive(Clone, Debug)]
pub enum Data {
    /// A struct, with its fields in declaration order and the span of its body.
    Struct { fields: Vec<Field>, span: Span },
    Enum,
    Union,
}

/// The item under analysis.
#[derive(Clone, Debug)]
pub struct DeriveInput {
    pub data: Data,
    pub span: Span,
}

/// What went wrong during analysis.
#[derive(Clone, Copy, Debug, PartialEq, Eq, Structural)]
pub enum ErrorKind {
    /// The item is not a struct with named fields.
    NamedFieldsRequired,
    /// A field is a reference where the data must be owned.
    OwnedDataRequired,
    /// An annotation keyword is neither a rule nor a modifier.
    UnknownAnnotation,
    /// An argument name is not accepted by the annotation.
    UnknownArgument,
    /// An argument's value has the wrong type.
    ArgumentType,
    /// `code` or `message` is given more than once.
    DuplicateArgument,
    /// A rule does not apply to the field's type.
    IncompatibleField,
}

/// A fatal analysis error and the node it points at.
#[derive(Clone, Copy, Debug, PartialEq, Eq, Structural)]
pub struct AnalysisError {
    pub kind: ErrorKind,
    pub span: Span,
}

/// The text that describes each kind of error.
pub open spec fn error_text(k: ErrorKind) -> Seq<char> {
    match k {
        ErrorKind::NamedFieldsRequired => "#[derive(Validate/Validify)] can only be used on structs with named fields"@,
        ErrorKind::OwnedDataRequired => "Validify must be implemented for structs with owned data, if you just need validation and not modification, use Validate instead"@,
        ErrorKind::UnknownAnnotation => "unknown validation rule or modifier"@,
        ErrorKind::UnknownArgument => "argument not accepted here"@,
        ErrorKind::ArgumentType => "argument has the wrong type of value"@,
        ErrorKind::DuplicateArgument => "argument given more than once"@,
        ErrorKind::IncompatibleField => "rule cannot be applied to a field of this type"@,
    }
}

impl ErrorKind {
    /// A human-readable description of the error.
    pub fn message(&self) -> (r: &'static str)
        ensures
            r@ == error_text(*self),
    {
        match self {
            ErrorKind::NamedFieldsRequired => "#[derive(Validate/Validify)] can only be used on structs with named fields",
            ErrorKind::OwnedDataRequired => "Validify must be implemented for structs with owned data, if you just need validation and not modification, use Validate instead",
            ErrorKind::UnknownAnnotation => "unknown validation rule or modifier",
            ErrorKind::UnknownArgument => "argument not accepted here",
            ErrorKind::ArgumentType => "argument has the wrong type of value",
            ErrorKind::DuplicateArgument => "argument given more than once",
            ErrorKind::IncompatibleField => "rule cannot be applied to a field of this type",
        }
    }
}

impl ArgValue {
    pub fn duplicate(&self) -> (r: ArgValue)
        ensures
            r == *self,
    {
        match self {
            ArgValue::Text(s) => ArgValue::Text(s.clone()),
            ArgValue::Number(n) => ArgValue::Number(*n),
            ArgValue::Decimal(d) => ArgValue::Decimal(d.clone()),
        }
    }
}

impl AnnotationArg {
    pub fn duplicate(&self) -> (r: AnnotationArg)
        ensures
            r == *self,
    {
        AnnotationArg { name: self.name.clone(), value: self.value.duplicate(), span: self.span }
    }
}

/// Two annotations with the same keyword, arguments and span.
pub open spec fn same_annotation(a: Annotation, b: Annotation) -> bool {
    a.keyword == b.keyword && a.args@ == b.args@ && a.span == b.span
}

/// Two fields with the same name, type, annotations and span.
pub open spec fn same_field(a: Field, b: Field) -> bool {
    &&& a.name == b.name
    &&& a.ty == b.ty
    &&& a.span == b.span
    &&& a.attrs@.len() == b.attrs@.len()
    &&& forall|i: int| 0 <= i < a.attrs@.len() ==> same_annotation(#[trigger] a.attrs@[i], b.attrs@[i])
}

impl Annotation {
    pub fn duplicate(&self) -> (r: Annotation)
        ensures
            same_annotation(r, *self),
    {
        let mut args: Vec<AnnotationArg> = Vec::new();
        let mut i: usize = 0;
        while i < self.args.len()
            invariant
                i <= self.args@.len(),
                args@ == self.args@.take(i as int),
            decreases self.args@.len() - i,
        {
            args.push(self.args[i].duplicate());
            proof {
                assert(self.args@.take(i + 1) =~= self.args@.take(i as int).push(self.args@[i as int]));
            }
            i = i + 1;
        }
        proof {
            assert(self.args@.take(i as int) =~= self.args@);
        }
        Annotation { keyword: self.keyword.clone(), args, span: self.span }
    }
}

impl TypeExpr {
    pub fn duplicate(&self) -> (r: TypeExpr)
        ensures
            r == *self,
    {
        match self {
            TypeExpr::Path { text } => TypeExpr::Path { text: text.clone() },
            TypeExpr::Reference { lifetime, elem } => TypeExpr::Reference {
                lifetime: *lifetime,
                elem: elem.clone(),
            },
            TypeExpr::Group { elem } => TypeExpr::Group { elem: elem.clone() },
            TypeExpr::Other { text } => TypeExpr::Other { text: text.clone() },
        }
    }
}

impl Field {
    pub fn duplicate(&self) -> (r: Field)
        ensures
            same_field(r, *self),
    {
        let name = match &self.name {
            Some(n) => Some(n.clone()),
            None => None,
        };
        let mut attrs: Vec<Annotation> = Vec::new();
        let mut i: usize = 0;
        while i < self.attrs.len()
            invariant
                i <= self.attrs@.len(),
                attrs@.len() == i,
                forall|j: int| 0 <= j < i ==> same_annotation(#[trigger] attrs@[j], self.attrs@[j]),
            decreases self.attrs@.len() - i,
        {
            attrs.push(self.attrs[i].duplicate());
            i = i + 1;
        }
        Field { name, ty: self.ty.duplicate(), attrs, span: self.span }
    }
}

} // verus!
