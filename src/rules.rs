//! Turning a field's annotations into validation rules and modifiers.
use vstd::prelude::*;
use crate::syntax::{AnalysisError, Annotation, AnnotationArg, ArgValue, ErrorKind, Span};

verus! {

/// The kinds of validation rule, one per rule keyword.
#[derive(Clone, Copy, Debug, PartialEq, Eq, Structural)]
pub enum RuleKind {
    Email,
    Url,
    Phone,
    CreditCard,
    Ip,
    NonControlCharacter,
    Required,
    Length,
    Range,
    Contains,
    DoesNotContain,
    MustMatch,
    Regex,
    Custom,
    Nested,
}

/// The kinds of modifier, one per modifier keyword.
#[derive(Clone, Copy, Debug, PartialEq, Eq, Structural)]
pub enum ModifierKind {
    Trim,
    Uppercase,
    Lowercase,
    Capitalize,
}

/// The type of value a rule parameter takes.
#[derive(Clone, Copy, Debug, PartialEq, Eq, Structural)]
pub enum ParamType {
    Number,
    Text,
}

/// A check to apply to a field.
#[derive(Clone, Debug)]
pub struct ValidationRule {
    pub kind: RuleKind,
    /// The error code reported when the check fails.
    pub code: String,
    /// The custom message reported when the check fails, if one was given.
    pub message: Option<String>,
    /// The kind-specific parameters, in the order written.
    pub params: Vec<AnnotationArg>,
}

/// A transform to apply to a field before validation.
#[derive(Clone, Copy, Debug, PartialEq, Eq, Structural)]
pub struct Modifier {
    pub kind: ModifierKind,
}

pub open spec fn rule_keyword(k: RuleKind) -> Seq<char> {
    match k {
        RuleKind::Email => "email"@,
        RuleKind::Url => "url"@,
        RuleKind::Phone => "phone"@,
        RuleKind::CreditCard => "credit_card"@,
        RuleKind::Ip => "ip"@,
        RuleKind::NonControlCharacter => "non_control_character"@,
        RuleKind::Required => "required"@,
        RuleKind::Length => "length"@,
        RuleKind::Range => "range"@,
        RuleKind::Contains => "contains"@,
        RuleKind::DoesNotContain => "does_not_contain"@,
        RuleKind::MustMatch => "must_match"@,
        RuleKind::Regex => "regex"@,
        RuleKind::Custom => "custom"@,
        RuleKind::Nested => "nested"@,
    }
}

/// The rule kind named by a keyword, if any.
pub open spec fn rule_kind_of(w: Seq<char>) -> Option<RuleKind> {
    if w == "email"@ {
        Some(RuleKind::Email)
    } else if w == "url"@ {
        Some(RuleKind::Url)
    } else if w == "phone"@ {
        Some(RuleKind::Phone)
    } else if w == "credit_card"@ {
        Some(RuleKind::CreditCard)
    } else if w == "ip"@ {
        Some(RuleKind::Ip)
    } else if w == "non_control_character"@ {
        Some(RuleKind::NonControlCharacter)
    } else if w == "required"@ {
        Some(RuleKind::Required)
    } else if w == "length"@ {
        Some(RuleKind::Length)
    } else if w == "range"@ {
        Some(RuleKind::Range)
    } else if w == "contains"@ {
        Some(RuleKind::Contains)
    } else if w == "does_not_contain"@ {
        Some(RuleKind::DoesNotContain)
    } else if w == "must_match"@ {
        Some(RuleKind::MustMatch)
    } else if w == "regex"@ {
        Some(RuleKind::Regex)
    } else if w == "custom"@ {
        Some(RuleKind::Custom)
    } else if w == "nested"@ {
        Some(RuleKind::Nested)
    } else {
        None
    }
}

/// The modifier kind named by a keyword, if any.
pub open spec fn modifier_kind_of(w: Seq<char>) -> Option<ModifierKind> {
    if w == "trim"@ {
        Some(ModifierKind::Trim)
    } else if w == "uppercase"@ {
        Some(ModifierKind::Uppercase)
    } else if w == "lowercase"@ {
        Some(ModifierKind::Lowercase)
    } else if w == "capitalize"@ {
        Some(ModifierKind::Capitalize)
    } else {
        None
    }
}

/// The kind-specific parameters that a rule accepts, with the type of each.
pub open spec fn param_type(k: RuleKind, name: Seq<char>) -> Option<ParamType> {
    match k {
        RuleKind::Length => if name == "min"@ || name == "max"@ || name == "equal"@ {
            Some(ParamType::Number)
        } else {
            None
        },
        RuleKind::Range => if name == "min"@ || name == "max"@ {
            Some(ParamType::Number)
        } else {
            None
        },
        RuleKind::Contains | RuleKind::DoesNotContain => if name == "value"@ {
            Some(ParamType::Text)
        } else {
            None
        },
        RuleKind::MustMatch => if name == "other"@ {
            Some(ParamType::Text)
        } else {
            None
        },
        RuleKind::Regex => if name == "pattern"@ {
            Some(ParamType::Text)
        } else {
            None
        },
        RuleKind::Custom => if name == "function"@ {
            Some(ParamType::Text)
        } else {
            None
        },
        _ => None,
    }
}

/// `code` and `message` are accepted by every rule.
pub open spec fn is_override(name: Seq<char>) -> bool {
    name == "code"@ || name == "message"@
}

pub open spec fn value_has_type(v: ArgValue, t: ParamType) -> bool {
    match t {
        ParamType::Number => v is Number || v is Decimal,
        ParamType::Text => v is Text,
    }
}

/// What is wrong with argument `i` of a rule annotation, if anything: an
/// override must be a text given once, a parameter must be one that the rule
/// accepts, with a value of its type.
pub open spec fn arg_error(k: RuleKind, args: Seq<AnnotationArg>, i: int) -> Option<ErrorKind> {
    let a = args[i];
    if is_override(a.name@) {
        if !(a.value is Text) {
            Some(ErrorKind::ArgumentType)
        } else if exists|m: int| 0 <= m < i && (#[trigger] args[m]).name@ == a.name@ {
            Some(ErrorKind::DuplicateArgument)
        } else {
            None
        }
    } else {
        match param_type(k, a.name@) {
            None => Some(ErrorKind::UnknownArgument),
            Some(t) => if value_has_type(a.value, t) {
                None
            } else {
                Some(ErrorKind::ArgumentType)
            },
        }
    }
}

/// The error of the first faulty argument from index `i` on.
pub open spec fn first_arg_error(k: RuleKind, args: Seq<AnnotationArg>, i: int) -> Option<
    AnalysisError,
>
    decreases args.len() - i,
{
    if i < 0 || i >= args.len() {
        None
    } else {
        match arg_error(k, args, i) {
            Some(e) => Some(AnalysisError { kind: e, span: args[i].span }),
            None => first_arg_error(k, args, i + 1),
        }
    }
}

/// The text of the last argument called `name` whose value is a text.
pub open spec fn last_text(args: Seq<AnnotationArg>, name: Seq<char>) -> Option<Seq<char>>
    decreases args.len(),
{
    if args.len() == 0 {
        None
    } else if args.last().name@ == name && args.last().value is Text {
        Some(args.last().value->Text_0@)
    } else {
        last_text(args.drop_last(), name)
    }
}

/// The arguments other than `code` and `message`, in order.
pub open spec fn kind_params(args: Seq<AnnotationArg>) -> Seq<AnnotationArg>
    decreases args.len(),
{
    if args.len() == 0 {
        args
    } else if is_override(args.last().name@) {
        kind_params(args.drop_last())
    } else {
        kind_params(args.drop_last()).push(args.last())
    }
}

pub open spec fn opt_view(o: Option<String>) -> Option<Seq<char>> {
    match o {
        Some(s) => Some(s@),
        None => None,
    }
}

/// The rule that an error-free annotation of kind `k` with arguments `args`
/// describes: the last `code` given or else the keyword, the last `message`
/// given, and the other arguments as parameters.
pub open spec fn is_rule_for(r: ValidationRule, k: RuleKind, args: Seq<AnnotationArg>) -> bool {
    &&& r.kind == k
    &&& r.code@ == match last_text(args, "code"@) {
        Some(c) => c,
        None => rule_keyword(k),
    }
    &&& opt_view(r.message) == last_text(args, "message"@)
    &&& r.params@ == kind_params(args)
}

/// Whether two texts are equal.
pub fn text_eq(a: &str, b: &str) -> (r: bool)
    ensures
        r == (a@ == b@),
{
    let n = a.unicode_len();
    if n != b.unicode_len() {
        return false;
    }
    let mut i: usize = 0;
    while i < n
        invariant
            n == a@.len(),
            n == b@.len(),
            i <= n,
            forall|j: int| 0 <= j < i ==> a@[j] == b@[j],
        decreases n - i,
    {
        if a.get_char(i) != b.get_char(i) {
            return false;
        }
        i = i + 1;
    }
    assert(a@ =~= b@);
    true
}

pub open spec fn is_numeric_name(s: Seq<char>) -> bool {
    ||| s == "u8"@
    ||| s == "u16"@
    ||| s == "u32"@
    ||| s == "u64"@
    ||| s == "u128"@
    ||| s == "usize"@
    ||| s == "i8"@
    ||| s == "i16"@
    ||| s == "i32"@
    ||| s == "i64"@
    ||| s == "i128"@
    ||| s == "isize"@
    ||| s == "f32"@
    ||| s == "f64"@
}

/// A signature of a primitive number type, or of an optional one.
pub open spec fn is_numeric_signature(s: Seq<char>) -> bool {
    ||| is_numeric_name(s)
    ||| (s.len() >= 8 && s.take(7) == "Option<"@ && s.last() == '>' && is_numeric_name(
        s.subrange(7, s.len() - 1),
    ))
}

/// What is wrong with an annotation on a field of signature `sig`, if anything.
pub open spec fn annotation_error(a: Annotation, sig: Seq<char>) -> Option<AnalysisError> {
    match rule_kind_of(a.keyword@) {
        Some(k) => match first_arg_error(k, a.args@, 0) {
            Some(e) => Some(e),
            None => if k == RuleKind::Range && !is_numeric_signature(sig) {
                Some(AnalysisError { kind: ErrorKind::IncompatibleField, span: a.span })
            } else {
                None
            },
        },
        None => match modifier_kind_of(a.keyword@) {
            Some(_) => if a.args@.len() > 0 {
                Some(AnalysisError { kind: ErrorKind::UnknownArgument, span: a.args@[0].span })
            } else {
                None
            },
            None => Some(AnalysisError { kind: ErrorKind::UnknownAnnotation, span: a.span }),
        },
    }
}

/// The error of the first faulty annotation from index `i` on.
pub open spec fn first_annotation_error(attrs: Seq<Annotation>, sig: Seq<char>, i: int) -> Option<
    AnalysisError,
>
    decreases attrs.len() - i,
{
    if i < 0 || i >= attrs.len() {
        None
    } else {
        match annotation_error(attrs[i], sig) {
            Some(e) => Some(e),
            None => first_annotation_error(attrs, sig, i + 1),
        }
    }
}

/// The rule annotations, in order.
pub open spec fn rule_annotations(attrs: Seq<Annotation>) -> Seq<Annotation>
    decreases attrs.len(),
{
    if attrs.len() == 0 {
        attrs
    } else if rule_kind_of(attrs.last().keyword@) is Some {
        rule_annotations(attrs.drop_last()).push(attrs.last())
    } else {
        rule_annotations(attrs.drop_last())
    }
}

/// The modifiers that the modifier annotations name, in order.
pub open spec fn modifiers_of(attrs: Seq<Annotation>) -> Seq<Modifier>
    decreases attrs.len(),
{
    if attrs.len() == 0 {
        Seq::empty()
    } else {
        match modifier_kind_of(attrs.last().keyword@) {
            Some(m) if rule_kind_of(attrs.last().keyword@) is None => modifiers_of(
                attrs.drop_last(),
            ).push(Modifier { kind: m }),
            _ => modifiers_of(attrs.drop_last()),
        }
    }
}

/// `rules` and `mods` are what the error-free annotations `attrs` describe.
pub open spec fn annotations_describe(
    attrs: Seq<Annotation>,
    rules: Seq<ValidationRule>,
    mods: Seq<Modifier>,
) -> bool {
    let ra = rule_annotations(attrs);
    &&& rules.len() == ra.len()
    &&& forall|j: int|
        0 <= j < rules.len() ==> is_rule_for(
            #[trigger] rules[j],
            rule_kind_of(ra[j].keyword@)->Some_0,
            ra[j].args@,
        )
    &&& mods == modifiers_of(attrs)
}

impl RuleKind {
    /// The keyword that names this kind, which is also its default error code.
    pub fn keyword(&self) -> (r: &'static str)
        ensures
            r@ == rule_keyword(*self),
    {
        match self {
            RuleKind::Email => "email",
            RuleKind::Url => "url",
            RuleKind::Phone => "phone",
            RuleKind::CreditCard => "credit_card",
            RuleKind::Ip => "ip",
            RuleKind::NonControlCharacter => "non_control_character",
            RuleKind::Required => "required",
            RuleKind::Length => "length",
            RuleKind::Range => "range",
            RuleKind::Contains => "contains",
            RuleKind::DoesNotContain => "does_not_contain",
            RuleKind::MustMatch => "must_match",
            RuleKind::Regex => "regex",
            RuleKind::Custom => "custom",
            RuleKind::Nested => "nested",
        }
    }
}

/// The rule kind that a keyword names.
pub fn rule_kind_from_keyword(w: &str) -> (r: Option<RuleKind>)
    ensures
        r == rule_kind_of(w@),
{
    if text_eq(w, "email") {
        Some(RuleKind::Email)
    } else if text_eq(w, "url") {
        Some(RuleKind::Url)
    } else if text_eq(w, "phone") {
        Some(RuleKind::Phone)
    } else if text_eq(w, "credit_card") {
        Some(RuleKind::CreditCard)
    } else if text_eq(w, "ip") {
        Some(RuleKind::Ip)
    } else if text_eq(w, "non_control_character") {
        Some(RuleKind::NonControlCharacter)
    } else if text_eq(w, "required") {
        Some(RuleKind::Required)
    } else if text_eq(w, "length") {
        Some(RuleKind::Length)
    } else if text_eq(w, "range") {
        Some(RuleKind::Range)
    } else if text_eq(w, "contains") {
        Some(RuleKind::Contains)
    } else if text_eq(w, "does_not_contain") {
        Some(RuleKind::DoesNotContain)
    } else if text_eq(w, "must_match") {
        Some(RuleKind::MustMatch)
    } else if text_eq(w, "regex") {
        Some(RuleKind::Regex)
    } else if text_eq(w, "custom") {
        Some(RuleKind::Custom)
    } else if text_eq(w, "nested") {
        Some(RuleKind::Nested)
    } else {
        None
    }
}

/// The modifier kind that a keyword names.
pub fn modifier_kind_from_keyword(w: &str) -> (r: Option<ModifierKind>)
    ensures
        r == modifier_kind_of(w@),
{
    if text_eq(w, "trim") {
        Some(ModifierKind::Trim)
    } else if text_eq(w, "uppercase") {
        Some(ModifierKind::Uppercase)
    } else if text_eq(w, "lowercase") {
        Some(ModifierKind::Lowercase)
    } else if text_eq(w, "capitalize") {
        Some(ModifierKind::Capitalize)
    } else {
        None
    }
}

/// The type of value that parameter `name` of a rule of kind `k` takes.
pub fn rule_param_type(k: RuleKind, name: &str) -> (r: Option<ParamType>)
    ensures
        r == param_type(k, name@),
{
    match k {
        RuleKind::Length => if text_eq(name, "min") || text_eq(name, "max") || text_eq(
            name,
            "equal",
        ) {
            Some(ParamType::Number)
        } else {
            None
        },
        RuleKind::Range => if text_eq(name, "min") || text_eq(name, "max") {
            Some(ParamType::Number)
        } else {
            None
        },
        RuleKind::Contains | RuleKind::DoesNotContain => if text_eq(name, "value") {
            Some(ParamType::Text)
        } else {
            None
        },
        RuleKind::MustMatch => if text_eq(name, "other") {
            Some(ParamType::Text)
        } else {
            None
        },
        RuleKind::Regex => if text_eq(name, "pattern") {
            Some(ParamType::Text)
        } else {
            None
        },
        RuleKind::Custom => if text_eq(name, "function") {
            Some(ParamType::Text)
        } else {
            None
        },
        _ => None,
    }
}

pub fn is_numeric_type_name(s: &str) -> (r: bool)
    ensures
        r == is_numeric_name(s@),
{
    text_eq(s, "u8") || text_eq(s, "u16") || text_eq(s, "u32") || text_eq(s, "u64") || text_eq(
        s,
        "u128",
    ) || text_eq(s, "usize") || text_eq(s, "i8") || text_eq(s, "i16") || text_eq(s, "i32")
        || text_eq(s, "i64") || text_eq(s, "i128") || text_eq(s, "isize") || text_eq(s, "f32")
        || text_eq(s, "f64")
}

/// Whether a signature names a number type, or an optional one.
pub fn is_numeric(sig: &str) -> (r: bool)
    ensures
        r == is_numeric_signature(sig@),
{
    if is_numeric_type_name(sig) {
        return true;
    }
    let n = sig.unicode_len();
    if n < 8 {
        return false;
    }
    text_eq(sig.substring_char(0, 7), "Option<") && sig.get_char(n - 1) == '>'
        && is_numeric_type_name(sig.substring_char(7, n - 1))
}

/// The overrides and kind-specific parameters of a rule
/// annotation's arguments, or the error of the first faulty one.
pub fn parse_rule_args(k: RuleKind, args: &Vec<AnnotationArg>) -> (r: Result<
    (Option<String>, Option<String>, Vec<AnnotationArg>),
    AnalysisError,
>)
    ensures
        match r {
            Ok((code, message, params)) => {
                &&& first_arg_error(k, args@, 0) is None
                &&& opt_view(code) == last_text(args@, "code"@)
                &&& opt_view(message) == last_text(args@, "message"@)
                &&& params@ == kind_params(args@)
            },
            Err(e) => first_arg_error(k, args@, 0) == Some(e),
        },
{
    let mut code: Option<String> = None;
    let mut message: Option<String> = None;
    let mut params: Vec<AnnotationArg> = Vec::new();
    let mut i: usize = 0;
    while i < args.len()
        invariant
            i <= args@.len(),
            first_arg_error(k, args@, 0) == first_arg_error(k, args@, i as int),
            opt_view(code) == last_text(args@.take(i as int), "code"@),
            opt_view(message) == last_text(args@.take(i as int), "message"@),
            code is Some <==> exists|m: int| 0 <= m < i && (#[trigger] args@[m]).name@ == "code"@,
            message is Some <==> exists|m: int|
                0 <= m < i && (#[trigger] args@[m]).name@ == "message"@,
            params@ == kind_params(args@.take(i as int)),
        decreases args@.len() - i,
    {
        let arg = &args[i];
        proof {
            reveal_strlit("code");
            reveal_strlit("message");
            assert("code"@.len() == 4);
            assert("message"@.len() == 7);
            assert(args@.take(i + 1).drop_last() =~= args@.take(i as int));
            assert(args@.take(i + 1).last() == args@[i as int]);
        }
        let is_code = text_eq(arg.name.as_str(), "code");
        let is_message = text_eq(arg.name.as_str(), "message");
        if is_code || is_message {
            match &arg.value {
                ArgValue::Text(t) => {
                    if (is_code && code.is_some()) || (is_message && message.is_some()) {
                        return Err(
                            AnalysisError { kind: ErrorKind::DuplicateArgument, span: arg.span },
                        );
                    }
                    proof {
                        assert(!exists|m: int|
                            0 <= m < i && (#[trigger] args@[m]).name@ == args@[i as int].name@);
                    }
                    if is_code {
                        code = Some(t.clone());
                    } else {
                        message = Some(t.clone());
                    }
                },
                _ => {
                    return Err(AnalysisError { kind: ErrorKind::ArgumentType, span: arg.span });
                },
            }
        } else {
            match rule_param_type(k, arg.name.as_str()) {
                None => {
                    return Err(AnalysisError { kind: ErrorKind::UnknownArgument, span: arg.span });
                },
                Some(t) => {
                    let fits = match (&arg.value, t) {
                        (ArgValue::Number(_), ParamType::Number) => true,
                        (ArgValue::Decimal(_), ParamType::Number) => true,
                        (ArgValue::Text(_), ParamType::Text) => true,
                        _ => false,
                    };
                    if !fits {
                        return Err(AnalysisError { kind: ErrorKind::ArgumentType, span: arg.span });
                    }
                    params.push(arg.duplicate());
                },
            }
        }
        i = i + 1;
    }
    proof {
        assert(args@.take(i as int) =~= args@);
    }
    Ok((code, message, params))
}

/// Parses a rule annotation of kind `k` on a field of signature `sig`.
pub fn parse_rule(k: RuleKind, a: &Annotation, sig: &str) -> (r: Result<ValidationRule, AnalysisError>)
    requires
        rule_kind_of(a.keyword@) == Some(k),
    ensures
        match r {
            Ok(rule) => annotation_error(*a, sig@) is None && is_rule_for(rule, k, a.args@),
            Err(e) => annotation_error(*a, sig@) == Some(e),
        },
{
    let (code, message, params) = parse_rule_args(k, &a.args)?;
    if k == RuleKind::Range && !is_numeric(sig) {
        return Err(AnalysisError { kind: ErrorKind::IncompatibleField, span: a.span });
    }
    let code = match code {
        Some(c) => c,
        None => k.keyword().to_owned(),
    };
    Ok(ValidationRule { kind: k, code, message, params })
}

/// Parses the annotations of a field of signature `sig` into its rules and
/// modifiers, each in the order written, or reports the first faulty annotation.
pub fn collect_annotations(attrs: &Vec<Annotation>, sig: &str) -> (r: Result<
    (Vec<ValidationRule>, Vec<Modifier>),
    AnalysisError,
>)
    ensures
        match r {
            Ok((rules, mods)) => first_annotation_error(attrs@, sig@, 0) is None
                && annotations_describe(attrs@, rules@, mods@),
            Err(e) => first_annotation_error(attrs@, sig@, 0) == Some(e),
        },
{
    let mut rules: Vec<ValidationRule> = Vec::new();
    let mut mods: Vec<Modifier> = Vec::new();
    let mut i: usize = 0;
    while i < attrs.len()
        invariant
            i <= attrs@.len(),
            first_annotation_error(attrs@, sig@, 0) == first_annotation_error(attrs@, sig@, i as int),
            annotations_describe(attrs@.take(i as int), rules@, mods@),
        decreases attrs@.len() - i,
    {
        let a = &attrs[i];
        proof {
            assert(attrs@.take(i + 1).drop_last() =~= attrs@.take(i as int));
            assert(attrs@.take(i + 1).last() == attrs@[i as int]);
        }
        match rule_kind_from_keyword(a.keyword.as_str()) {
            Some(k) => {
                let rule = parse_rule(k, a, sig)?;
                rules.push(rule);
            },
            None => match modifier_kind_from_keyword(a.keyword.as_str()) {
                Some(m) => {
                    if a.args.len() > 0 {
                        return Err(
                            AnalysisError { kind: ErrorKind::UnknownArgument, span: a.args[0].span },
                        );
                    }
                    mods.push(Modifier { kind: m });
                },
                None => {
                    return Err(AnalysisError { kind: ErrorKind::UnknownAnnotation, span: a.span });
                },
            },
        }
        i = i + 1;
    }
    proof {
        assert(attrs@.take(i as int) =~= attrs@);
    }
    Ok((rules, mods))
}

proof fn lemma_last_text_unique(args: Seq<AnnotationArg>, name: Seq<char>, j: int)
    requires
        0 <= j < args.len(),
        args[j].name@ == name,
        args[j].value is Text,
        forall|k: int| 0 <= k < args.len() && k != j ==> (#[trigger] args[k]).name@ != name,
    ensures
        last_text(args, name) == Some(args[j].value->Text_0@),
    decreases args.len(),
{
    if j != args.len() - 1 {
        let d = args.drop_last();
        assert(args.last() == args[args.len() - 1]);
        assert forall|k: int| 0 <= k < d.len() && k != j implies (#[trigger] d[k]).name@ != name by {
            assert(d[k] == args[k]);
        }
        lemma_last_text_unique(d, name, j);
    }
}

proof fn lemma_last_text_absent(args: Seq<AnnotationArg>, name: Seq<char>)
    requires
        forall|k: int| 0 <= k < args.len() ==> (#[trigger] args[k]).name@ != name,
    ensures
        last_text(args, name) is None,
    decreases args.len(),
{
    if args.len() > 0 {
        let d = args.drop_last();
        assert(args.last() == args[args.len() - 1]);
        assert forall|k: int| 0 <= k < d.len() implies (#[trigger] d[k]).name@ != name by {
            assert(d[k] == args[k]);
        }
        lemma_last_text_absent(d, name);
    }
}

proof fn lemma_single_rule(attrs: Seq<Annotation>, rules: Seq<ValidationRule>, mods: Seq<Modifier>)
    requires
        attrs.len() == 1,
        rule_kind_of(attrs[0].keyword@) is Some,
        annotations_describe(attrs, rules, mods),
    ensures
        rules.len() == 1,
        is_rule_for(rules[0], rule_kind_of(attrs[0].keyword@)->Some_0, attrs[0].args@),
{
    assert(attrs.drop_last().len() == 0);
    assert(rule_annotations(attrs.drop_last()) == attrs.drop_last());
    assert(rule_annotations(attrs) =~= seq![attrs[0]]);
    assert(is_rule_for(rules[0], rule_kind_of(attrs[0].keyword@)->Some_0, attrs[0].args@));
}

proof fn lemma_no_arg_error(k: RuleKind, args: Seq<AnnotationArg>, i: int, j: int)
    requires
        0 <= j <= i < args.len(),
        first_arg_error(k, args, j) is None,
    ensures
        arg_error(k, args, i) is None,
    decreases i - j,
{
    if j < i {
        lemma_no_arg_error(k, args, i, j + 1);
    }
}

/// In error-free arguments an override is a text and is given at most once.
proof fn lemma_override_unique(k: RuleKind, args: Seq<AnnotationArg>, name: Seq<char>, j: int)
    requires
        first_arg_error(k, args, 0) is None,
        is_override(name),
        0 <= j < args.len(),
        args[j].name@ == name,
    ensures
        args[j].value is Text,
        forall|m: int| 0 <= m < args.len() && m != j ==> (#[trigger] args[m]).name@ != name,
{
    lemma_no_arg_error(k, args, j, 0);
    assert forall|m: int| 0 <= m < args.len() && m != j implies (#[trigger] args[m]).name@ != name by {
        lemma_no_arg_error(k, args, m, 0);
        if args[m].name@ == name {
            if m < j {
                assert(args[m].name@ == args[j].name@);
            } else {
                assert(args[j].name@ == args[m].name@);
            }
        }
    }
}

/// A field with one error-free rule annotation that gives `code` gets one
/// rule, which carries exactly the code given; with no `code` argument the
/// rule carries its kind's keyword as its code.
pub proof fn lemma_code_override(
    attrs: Seq<Annotation>,
    sig: Seq<char>,
    rules: Seq<ValidationRule>,
    mods: Seq<Modifier>,
    j: int,
)
    requires
        attrs.len() == 1,
        rule_kind_of(attrs[0].keyword@) is Some,
        first_annotation_error(attrs, sig, 0) is None,
        annotations_describe(attrs, rules, mods),
        0 <= j < attrs[0].args@.len() ==> attrs[0].args@[j].name@ == "code"@,
        !(0 <= j < attrs[0].args@.len()) ==> forall|k: int|
            0 <= k < attrs[0].args@.len() ==> (#[trigger] attrs[0].args@[k]).name@ != "code"@,
    ensures
        rules.len() == 1,
        0 <= j < attrs[0].args@.len() ==> rules[0].code@ == attrs[0].args@[j].value->Text_0@,
        !(0 <= j < attrs[0].args@.len()) ==> rules[0].code@ == rule_keyword(
            rule_kind_of(attrs[0].keyword@)->Some_0,
        ),
{
    lemma_single_rule(attrs, rules, mods);
    let args = attrs[0].args@;
    let k = rule_kind_of(attrs[0].keyword@)->Some_0;
    assert(annotation_error(attrs[0], sig) is None);
    if 0 <= j < args.len() {
        lemma_override_unique(k, args, "code"@, j);
        lemma_last_text_unique(args, "code"@, j);
    } else {
        lemma_last_text_absent(args, "code"@);
    }
}

/// A field with one error-free rule annotation that gives `message` gets one
/// rule, which carries exactly the message given; with no `message` argument
/// the rule carries none.
pub proof fn lemma_message_override(
    attrs: Seq<Annotation>,
    sig: Seq<char>,
    rules: Seq<ValidationRule>,
    mods: Seq<Modifier>,
    j: int,
)
    requires
        attrs.len() == 1,
        rule_kind_of(attrs[0].keyword@) is Some,
        first_annotation_error(attrs, sig, 0) is None,
        annotations_describe(attrs, rules, mods),
        0 <= j < attrs[0].args@.len() ==> attrs[0].args@[j].name@ == "message"@,
        !(0 <= j < attrs[0].args@.len()) ==> forall|k: int|
            0 <= k < attrs[0].args@.len() ==> (#[trigger] attrs[0].args@[k]).name@ != "message"@,
    ensures
        rules.len() == 1,
        0 <= j < attrs[0].args@.len() ==> opt_view(rules[0].message) == Some(
            attrs[0].args@[j].value->Text_0@,
        ),
        !(0 <= j < attrs[0].args@.len()) ==> rules[0].message is None,
{
    lemma_single_rule(attrs, rules, mods);
    let args = attrs[0].args@;
    let k = rule_kind_of(attrs[0].keyword@)->Some_0;
    assert(annotation_error(attrs[0], sig) is None);
    if 0 <= j < args.len() {
        lemma_override_unique(k, args, "message"@, j);
        lemma_last_text_unique(args, "message"@, j);
    } else {
        lemma_last_text_absent(args, "message"@);
    }
}

/// An annotation whose keyword names neither a rule nor a modifier makes the
/// field's annotations fail: it is never skipped. Where no annotation before
/// it is faulty, the error is an unknown annotation at its span.
pub proof fn lemma_unknown_keyword_fails(attrs: Seq<Annotation>, sig: Seq<char>, i: int)
    requires
        0 <= i < attrs.len(),
        rule_kind_of(attrs[i].keyword@) is None,
        modifier_kind_of(attrs[i].keyword@) is None,
    ensures
        first_annotation_error(attrs, sig, 0) is Some,
        (forall|k: int| 0 <= k < i ==> annotation_error(#[trigger] attrs[k], sig) is None)
            ==> first_annotation_error(attrs, sig, 0) == Some(
            AnalysisError { kind: ErrorKind::UnknownAnnotation, span: attrs[i].span },
        ),
{
    lemma_error_reaches(attrs, sig, i, 0);
}

proof fn lemma_error_reaches(attrs: Seq<Annotation>, sig: Seq<char>, i: int, j: int)
    requires
        0 <= j <= i < attrs.len(),
        annotation_error(attrs[i], sig) is Some,
    ensures
        first_annotation_error(attrs, sig, j) is Some,
        (forall|k: int| j <= k < i ==> annotation_error(#[trigger] attrs[k], sig) is None)
            ==> first_annotation_error(attrs, sig, j) == annotation_error(attrs[i], sig),
    decreases i - j,
{
    if j < i {
        lemma_error_reaches(attrs, sig, i, j + 1);
    }
}

} // verus!
