use vstd::prelude::*;
use crate::config::{
    format_key, format_key_string, lemma_keys_distinct, format_of_tag, shadow_key, shadow_key_string, Config,
    ConfigFormat, ConfigView,
};
use crate::document::{field_view, fields_view, keys_unique, lemma_lookup, Document, FieldView};

verus! {

/// Why a configuration could not be loaded.
#[derive(Clone, Debug, PartialEq, Eq)]
pub enum ValidationError {
    /// A key that the schema does not know.
    UnknownField(String),
    /// A key of the schema that no layer sets.
    MissingField(String),
    /// A key of the schema whose value is not a string.
    WrongType(String),
    /// A preferred format other than `toml`, `yaml` or `json`.
    InvalidValue(String),
    /// An override document that its format's decoder rejected, with the decoder's message.
    Malformed(ConfigFormat, String),
}

/// A validation error as plain values; a decoder's message is left out.
pub enum ErrorView {
    UnknownField(Seq<char>),
    MissingField(Seq<char>),
    WrongType(Seq<char>),
    InvalidValue(Seq<char>),
    Malformed(ConfigFormat),
}

impl View for ValidationError {
    type V = ErrorView;

    open spec fn view(&self) -> ErrorView {
        match self {
            ValidationError::UnknownField(k) => ErrorView::UnknownField(k@),
            ValidationError::MissingField(k) => ErrorView::MissingField(k@),
            ValidationError::WrongType(k) => ErrorView::WrongType(k@),
            ValidationError::InvalidValue(k) => ErrorView::InvalidValue(k@),
            ValidationError::Malformed(f, _) => ErrorView::Malformed(*f),
        }
    }
}

/// `es` holds an error whose view is `e`.
pub open spec fn has_error(es: Seq<ValidationError>, e: ErrorView) -> bool {
    exists|k: int| 0 <= k < es.len() && (#[trigger] es[k])@ == e
}

pub proof fn lemma_push_error(es: Seq<ValidationError>, x: ValidationError)
    ensures
        forall|e: ErrorView| #[trigger] has_error(es.push(x), e) <==> has_error(es, e) || e == x@,
{
    assert forall|e: ErrorView| #[trigger] has_error(es.push(x), e) <==> has_error(es, e) || e
        == x@ by {
        if has_error(es, e) {
            let k = choose|k: int| 0 <= k < es.len() && (#[trigger] es[k])@ == e;
            assert(es.push(x)[k] == es[k]);
        }
        if e == x@ {
            assert(es.push(x)[es.len() as int] == x);
        }
        if has_error(es.push(x), e) {
            let k = choose|k: int| 0 <= k < es.len() + 1 && (#[trigger] es.push(x)[k])@ == e;
            if k < es.len() {
                assert(es.push(x)[k] == es[k]);
            }
        }
    }
}

/// A key of the schema.
pub open spec fn is_known_key(k: Seq<char>) -> bool {
    k == shadow_key() || k == format_key()
}

/// The field errors of a merged document: unknown keys, missing keys, values
/// that are not strings, and a preferred format that is not one of the known tags.
pub open spec fn field_errors(m: Map<Seq<char>, Option<Seq<char>>>) -> Set<ErrorView> {
    Set::new(
        |e: ErrorView|
            match e {
                ErrorView::UnknownField(k) => m.contains_key(k) && !is_known_key(k),
                ErrorView::MissingField(k) => is_known_key(k) && !m.contains_key(k),
                ErrorView::WrongType(k) => is_known_key(k) && m.contains_key(k) && m[k] is None,
                ErrorView::InvalidValue(k) => k == format_key() && m.contains_key(k) && (
                m[k] matches Some(v) && format_of_tag(v) is None),
                ErrorView::Malformed(_) => false,
            },
    )
}

/// A value that is a string naming a known format.
pub open spec fn names_format(v: Option<Seq<char>>) -> bool {
    match v {
        Some(t) => format_of_tag(t) is Some,
        None => false,
    }
}

/// A merged document that deserializes into a snapshot.
pub open spec fn is_valid(m: Map<Seq<char>, Option<Seq<char>>>) -> bool {
    &&& forall|k: Seq<char>| m.contains_key(k) ==> is_known_key(k)
    &&& m.contains_key(shadow_key()) && m[shadow_key()] is Some
    &&& m.contains_key(format_key()) && names_format(m[format_key()])
}

/// The snapshot a valid merged document deserializes into.
pub open spec fn config_of(m: Map<Seq<char>, Option<Seq<char>>>) -> ConfigView {
    ConfigView {
        shadow_dir: m[shadow_key()].unwrap(),
        preferred_config_type: m[format_key()].unwrap(),
    }
}

proof fn lemma_step(before: Seq<ValidationError>, after: Seq<ValidationError>, f: FieldView)
    requires
        (after == before && entry_errors(f) =~= Set::empty()) || (after == before.push(after.last())
            && entry_errors(f) =~= set![after.last()@]),
    ensures
        forall|e: ErrorView| #[trigger]
            has_error(after, e) <==> has_error(before, e) || entry_errors(f).contains(e),
{
    if after != before {
        lemma_push_error(before, after.last());
    }
}

/// The errors that one field contributes.
pub open spec fn entry_errors(f: FieldView) -> Set<ErrorView> {
    if !is_known_key(f.0) {
        set![ErrorView::UnknownField(f.0)]
    } else if f.1 is None {
        set![ErrorView::WrongType(f.0)]
    } else if f.0 == format_key() && !names_format(f.1) {
        set![ErrorView::InvalidValue(f.0)]
    } else {
        Set::empty()
    }
}

pub proof fn lemma_valid_iff_no_errors(m: Map<Seq<char>, Option<Seq<char>>>)
    ensures
        is_valid(m) <==> field_errors(m) =~= Set::empty(),
{
    if !is_valid(m) {
        if exists|k: Seq<char>| m.contains_key(k) && !is_known_key(k) {
            let k = choose|k: Seq<char>| m.contains_key(k) && !is_known_key(k);
            assert(field_errors(m).contains(ErrorView::UnknownField(k)));
        } else if !m.contains_key(shadow_key()) {
            assert(field_errors(m).contains(ErrorView::MissingField(shadow_key())));
        } else if m[shadow_key()] is None {
            assert(field_errors(m).contains(ErrorView::WrongType(shadow_key())));
        } else if !m.contains_key(format_key()) {
            assert(field_errors(m).contains(ErrorView::MissingField(format_key())));
        } else if m[format_key()] is None {
            assert(field_errors(m).contains(ErrorView::WrongType(format_key())));
        } else {
            assert(field_errors(m).contains(ErrorView::InvalidValue(format_key())));
        }
    } else {
        assert forall|e: ErrorView| !field_errors(m).contains(e) by {
            match e {
                ErrorView::WrongType(k) => {
                    if is_known_key(k) && m.contains_key(k) {
                        assert(k == shadow_key() || k == format_key());
                    }
                },
                _ => {},
            }
        }
    }
}

/// Checks a merged document against the schema, collecting every error.
pub fn validate(doc: &Document) -> (r: Result<Config, Vec<ValidationError>>)
    requires
        doc.wf(),
    ensures
        r is Ok <==> is_valid(doc@),
        r matches Ok(c) ==> c@ == config_of(doc@) && c@.wf(),
        r matches Err(es) ==> es.len() > 0 && forall|e: ErrorView|
            has_error(es@, e) <==> #[trigger] field_errors(doc@).contains(e),
{
    let ghost fs = fields_view(doc.fields@);
    let ghost m = doc@;
    proof {
        lemma_lookup(fs);
        lemma_keys_distinct();
    }
    let shadow = shadow_key_string();
    let format = format_key_string();
    let mut errors: Vec<ValidationError> = Vec::new();
    let mut shadow_seen = false;
    let mut format_seen = false;
    let mut shadow_value: Option<String> = None;
    let mut format_value: Option<String> = None;
    let n = doc.fields.len();
    let mut i: usize = 0;
    while i < n
        invariant
            n == doc.fields.len(),
            0 <= i <= n,
            fs == fields_view(doc.fields@),
            m == doc@,
            keys_unique(fs),
            shadow@ == shadow_key(),
            format@ == format_key(),
            shadow_key() != format_key(),
            forall|j: int| 0 <= j < fs.len() ==> m.contains_key(#[trigger] fs[j].0) && m[fs[j].0] == fs[j].1,
            forall|k: Seq<char>| #[trigger] m.contains_key(k) ==> exists|j: int| 0 <= j < fs.len() && fs[j].0 == k,
            shadow_seen <==> exists|j: int| 0 <= j < i && fs[j].0 == shadow_key(),
            format_seen <==> exists|j: int| 0 <= j < i && fs[j].0 == format_key(),
            shadow_value matches Some(v) ==> shadow_seen && m[shadow_key()] == Some(v@),
            shadow_seen && m[shadow_key()] is Some ==> shadow_value is Some,
            format_value matches Some(v) ==> format_seen && m[format_key()] == Some(v@)
                && format_of_tag(v@) is Some,
            format_seen && names_format(m[format_key()]) ==> format_value is Some,
            forall|e: ErrorView| #[trigger]
                has_error(errors@, e) <==> (exists|j: int|
                    0 <= j < i && #[trigger] entry_errors(fs[j]).contains(e)),
        decreases n - i,
    {
        let ghost before = errors@;
        let key = &doc.fields[i].0;
        let value = &doc.fields[i].1;
        assert(fs[i as int] == field_view(doc.fields@[i as int]));
        let ghost f = fs[i as int];
        assert(f.0 == key@);
        if *key == shadow {
            shadow_seen = true;
            match value {
                Some(v) => {
                    shadow_value = Some(v.clone());
                },
                None => {
                    errors.push(ValidationError::WrongType(key.clone()));
                },
            }
        } else if *key == format {
            format_seen = true;
            match value {
                Some(v) => {
                    if ConfigFormat::from_tag(v).is_some() {
                        format_value = Some(v.clone());
                    } else {
                        errors.push(ValidationError::InvalidValue(key.clone()));
                    }
                },
                None => {
                    errors.push(ValidationError::WrongType(key.clone()));
                },
            }
        } else {
            errors.push(ValidationError::UnknownField(key.clone()));
        }
        proof {
            if errors@.len() == before.len() {
                assert(errors@ == before);
                assert(entry_errors(f) =~= Set::empty());
            } else {
                assert(errors@ == before.push(errors@.last()));
                assert(entry_errors(f) =~= set![errors@.last()@]);
            }
            lemma_step(before, errors@, f);
            assert forall|e: ErrorView| #[trigger]
                has_error(errors@, e) <==> (exists|j: int|
                    0 <= j < i + 1 && #[trigger] entry_errors(fs[j]).contains(e)) by {
                if entry_errors(f).contains(e) {
                    assert(entry_errors(fs[i as int]).contains(e));
                }
                if exists|j: int| 0 <= j < i + 1 && #[trigger] entry_errors(fs[j]).contains(e) {
                    let j = choose|j: int| 0 <= j < i + 1 && #[trigger] entry_errors(fs[j]).contains(e);
                    if j < i {
                        assert(exists|j: int| 0 <= j < i && #[trigger] entry_errors(fs[j]).contains(e));
                    }
                }
            }
            if f.0 == shadow_key() {
                assert(fs[i as int].0 == shadow_key());
            }
            if f.0 == format_key() {
                assert(fs[i as int].0 == format_key());
            }
        }
        i = i + 1;
    }
    let ghost looped = errors@;
    if !shadow_seen {
        errors.push(ValidationError::MissingField(shadow));
    }
    let ghost mid = errors@;
    proof {
        if !shadow_seen {
            lemma_push_error(looped, errors@.last());
            assert(errors@ == looped.push(errors@.last()));
        }
    }
    if !format_seen {
        errors.push(ValidationError::MissingField(format));
    }
    proof {
        if !format_seen {
            lemma_push_error(mid, errors@.last());
            assert(errors@ == mid.push(errors@.last()));
        }
        assert forall|e: ErrorView| has_error(errors@, e) <==> #[trigger] field_errors(m).contains(e) by {
            match e {
                ErrorView::UnknownField(k) => {
                    if field_errors(m).contains(e) {
                        let j = choose|j: int| 0 <= j < fs.len() && fs[j].0 == k;
                        assert(entry_errors(fs[j]).contains(e));
                    }
                    if has_error(errors@, e) {
                        let j = choose|j: int| 0 <= j < n && #[trigger] entry_errors(fs[j]).contains(e);
                        assert(m.contains_key(fs[j].0));
                    }
                },
                ErrorView::WrongType(k) => {
                    if field_errors(m).contains(e) {
                        let j = choose|j: int| 0 <= j < fs.len() && fs[j].0 == k;
                        assert(entry_errors(fs[j]).contains(e));
                    }
                    if has_error(errors@, e) {
                        let j = choose|j: int| 0 <= j < n && #[trigger] entry_errors(fs[j]).contains(e);
                        assert(m.contains_key(fs[j].0));
                    }
                },
                ErrorView::InvalidValue(k) => {
                    if field_errors(m).contains(e) {
                        let j = choose|j: int| 0 <= j < fs.len() && fs[j].0 == k;
                        assert(entry_errors(fs[j]).contains(e));
                    }
                    if has_error(errors@, e) {
                        let j = choose|j: int| 0 <= j < n && #[trigger] entry_errors(fs[j]).contains(e);
                        assert(m.contains_key(fs[j].0));
                    }
                },
                ErrorView::MissingField(k) => {
                    if m.contains_key(shadow_key()) {
                        let j = choose|j: int| 0 <= j < fs.len() && fs[j].0 == shadow_key();
                        assert(shadow_seen);
                    }
                    if m.contains_key(format_key()) {
                        let j = choose|j: int| 0 <= j < fs.len() && fs[j].0 == format_key();
                        assert(format_seen);
                    }
                    if shadow_seen {
                        assert(m.contains_key(shadow_key()));
                    }
                    if format_seen {
                        assert(m.contains_key(format_key()));
                    }
                },
                ErrorView::Malformed(_) => {},
            }
        }
        lemma_valid_iff_no_errors(m);
        if errors.len() == 0 {
            assert forall|e: ErrorView| !field_errors(m).contains(e) by {
                assert(!has_error(errors@, e));
            }
            assert(field_errors(m) =~= Set::empty());
            assert(m.contains_key(shadow_key()));
            assert(shadow_seen);
            assert(format_seen);
        } else {
            assert(has_error(errors@, errors@[0]@));
            assert(field_errors(m).contains(errors@[0]@));
        }
    }
    if errors.len() == 0 {
        match (shadow_value, format_value) {
            (Some(s), Some(f)) => Ok(Config { shadow_dir: s, preferred_config_type: f }),
            _ => Err(errors),
        }
    } else {
        Err(errors)
    }
}

} // verus!
