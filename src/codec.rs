use std::collections::BTreeMap;
use vstd::prelude::*;
use crate::config::{
    default_config, format_key, format_key_string, shadow_key, shadow_key_string, Config,
    ConfigFormat, ConfigView,
};
use crate::document::{fields_view, Field, FieldView};
use crate::loader::{
    layers_view, lemma_empty_layers, lemma_load_without_overrides, load_layers, merged,
};
use crate::validate::{
    config_of, field_errors, has_error, is_valid, lemma_push_error, lemma_valid_iff_no_errors,
    ErrorView, ValidationError,
};

verus! {

/// The fields of a JSON document, or `None` when it is not a JSON object.
pub uninterp spec fn json_fields(text: Seq<char>) -> Option<Seq<(Seq<char>, Option<Seq<char>>)>>;

/// The fields of a YAML document, or `None` when it is not a YAML mapping with string keys.
pub uninterp spec fn yaml_fields(text: Seq<char>) -> Option<Seq<(Seq<char>, Option<Seq<char>>)>>;

/// The fields of a TOML document, or `None` when it is not valid TOML.
pub uninterp spec fn toml_fields(text: Seq<char>) -> Option<Seq<(Seq<char>, Option<Seq<char>>)>>;

/// The pretty JSON text of an object with the given string fields.
pub uninterp spec fn json_text(fields: Seq<(Seq<char>, Seq<char>)>) -> Seq<char>;

/// The YAML text of a mapping with the given string fields.
pub uninterp spec fn yaml_text(fields: Seq<(Seq<char>, Seq<char>)>) -> Seq<char>;

/// The pretty TOML text of a table with the given string fields.
pub uninterp spec fn toml_text(fields: Seq<(Seq<char>, Seq<char>)>) -> Seq<char>;

/// Relies on serde_json::from_str: decodes a JSON object into its fields,
/// keeping string values and marking any other value as not a string.
#[verifier::external_body]
fn decode_json(text: &str) -> (r: Result<Vec<Field>, String>)
    ensures
        r is Ok <==> json_fields(text@) is Some,
        r matches Ok(fs) ==> json_fields(text@) == Some(fields_view(fs@)),
{
    match serde_json::from_str::<BTreeMap<String, serde_json::Value>>(text) {
        Ok(map) => Ok(map.into_iter().map(|(k, v)| match v {
            serde_json::Value::String(s) => (k, Some(s)),
            _ => (k, None),
        }).collect()),
        Err(e) => Err(e.to_string()),
    }
}

/// Relies on serde_yaml::from_str: decodes a YAML mapping into its fields,
/// keeping string values and marking any other value as not a string.
#[verifier::external_body]
fn decode_yaml(text: &str) -> (r: Result<Vec<Field>, String>)
    ensures
        r is Ok <==> yaml_fields(text@) is Some,
        r matches Ok(fs) ==> yaml_fields(text@) == Some(fields_view(fs@)),
{
    match serde_yaml::from_str::<BTreeMap<String, serde_yaml::Value>>(text) {
        Ok(map) => Ok(map.into_iter().map(|(k, v)| match v {
            serde_yaml::Value::String(s) => (k, Some(s)),
            _ => (k, None),
        }).collect()),
        Err(e) => Err(e.to_string()),
    }
}

/// Relies on toml::from_str: decodes a TOML table into its fields,
/// keeping string values and marking any other value as not a string.
#[verifier::external_body]
fn decode_toml(text: &str) -> (r: Result<Vec<Field>, String>)
    ensures
        r is Ok <==> toml_fields(text@) is Some,
        r matches Ok(fs) ==> toml_fields(text@) == Some(fields_view(fs@)),
{
    match toml::from_str::<BTreeMap<String, toml::Value>>(text) {
        Ok(map) => Ok(map.into_iter().map(|(k, v)| match v {
            toml::Value::String(s) => (k, Some(s)),
            _ => (k, None),
        }).collect()),
        Err(e) => Err(e.to_string()),
    }
}

pub open spec fn pairs_view(fs: Seq<(String, String)>) -> Seq<(Seq<char>, Seq<char>)> {
    fs.map_values(|f: (String, String)| (f.0@, f.1@))
}

/// Relies on serde_json::to_string_pretty: the pretty JSON object of the fields;
/// it fails only on a failing `Serialize` impl or a non-string key, so never here.
#[verifier::external_body]
fn encode_json(fields: &Vec<(String, String)>) -> (r: Result<String, String>)
    ensures
        r is Ok,
        r matches Ok(t) ==> t@ == json_text(pairs_view(fields@)),
{
    let map: BTreeMap<&str, &str> = fields.iter().map(|(k, v)| (k.as_str(), v.as_str())).collect();
    match serde_json::to_string_pretty(&map) {
        Ok(t) => Ok(t),
        Err(e) => Err(e.to_string()),
    }
}

/// Relies on serde_yaml::to_string: the YAML mapping of the fields; it fails
/// only when a `Serialize` impl fails, which a map of strings never does.
#[verifier::external_body]
fn encode_yaml(fields: &Vec<(String, String)>) -> (r: Result<String, String>)
    ensures
        r is Ok,
        r matches Ok(t) ==> t@ == yaml_text(pairs_view(fields@)),
{
    let map: BTreeMap<&str, &str> = fields.iter().map(|(k, v)| (k.as_str(), v.as_str())).collect();
    match serde_yaml::to_string(&map) {
        Ok(t) => Ok(t),
        Err(e) => Err(e.to_string()),
    }
}

/// Relies on toml::to_string_pretty: the pretty TOML table of the fields; a
/// table of string values always serializes.
#[verifier::external_body]
fn encode_toml(fields: &Vec<(String, String)>) -> (r: Result<String, String>)
    ensures
        r is Ok,
        r matches Ok(t) ==> t@ == toml_text(pairs_view(fields@)),
{
    let map: BTreeMap<&str, &str> = fields.iter().map(|(k, v)| (k.as_str(), v.as_str())).collect();
    match toml::to_string_pretty(&map) {
        Ok(t) => Ok(t),
        Err(e) => Err(e.to_string()),
    }
}

/// The fields of a document in `format`, or `None` when its decoder rejects it.
pub open spec fn decoded(format: ConfigFormat, text: Seq<char>) -> Option<Seq<FieldView>> {
    match format {
        ConfigFormat::Json => json_fields(text),
        ConfigFormat::Yaml => yaml_fields(text),
        ConfigFormat::Toml => toml_fields(text),
    }
}

/// Decodes a document in `format` into its fields.
pub fn decode(format: ConfigFormat, text: &str) -> (r: Result<Vec<Field>, String>)
    ensures
        r is Ok <==> decoded(format, text@) is Some,
        r matches Ok(fs) ==> decoded(format, text@) == Some(fields_view(fs@)),
{
    match format {
        ConfigFormat::Json => decode_json(text),
        ConfigFormat::Yaml => decode_yaml(text),
        ConfigFormat::Toml => decode_toml(text),
    }
}

pub open spec fn opt_view(o: Option<&str>) -> Option<Seq<char>> {
    match o {
        Some(s) => Some(s@),
        None => None,
    }
}

/// The layer an override source contributes: nothing when it is absent or malformed.
pub open spec fn source_layer(format: ConfigFormat, text: Option<Seq<char>>) -> Seq<FieldView> {
    match text {
        Some(t) => match decoded(format, t) {
            Some(l) => l,
            None => Seq::empty(),
        },
        None => Seq::empty(),
    }
}

/// An override source that is present and that its decoder rejects.
pub open spec fn source_malformed(format: ConfigFormat, text: Option<Seq<char>>) -> bool {
    match text {
        Some(t) => decoded(format, t) is None,
        None => false,
    }
}

/// The override layers in ascending precedence: JSON, then YAML, then TOML.
pub open spec fn override_layers(
    json: Option<Seq<char>>,
    yaml: Option<Seq<char>>,
    toml: Option<Seq<char>>,
) -> Seq<Seq<FieldView>> {
    seq![
        source_layer(ConfigFormat::Json, json),
        source_layer(ConfigFormat::Yaml, yaml),
        source_layer(ConfigFormat::Toml, toml),
    ]
}

/// Every error that loading from these sources reports.
pub open spec fn load_errors(
    json: Option<Seq<char>>,
    yaml: Option<Seq<char>>,
    toml: Option<Seq<char>>,
) -> Set<ErrorView> {
    field_errors(merged(override_layers(json, yaml, toml))).union(
        Set::new(
            |e: ErrorView|
                match e {
                    ErrorView::Malformed(f) => source_malformed(
                        f,
                        match f {
                            ConfigFormat::Json => json,
                            ConfigFormat::Yaml => yaml,
                            ConfigFormat::Toml => toml,
                        },
                    ),
                    _ => false,
                },
        ),
    )
}

/// Decodes an override source: the layer it contributes, and the decoder's
/// message when it is malformed.
fn decode_source(format: ConfigFormat, text: Option<&str>) -> (r: (Vec<Field>, Option<String>))
    ensures
        fields_view(r.0@) == source_layer(format, opt_view(text)),
        r.1 is Some <==> source_malformed(format, opt_view(text)),
{
    match text {
        Some(t) => match decode(format, t) {
            Ok(fs) => (fs, None),
            Err(message) => {
                let empty: Vec<Field> = Vec::new();
                assert(fields_view(empty@) =~= Seq::<FieldView>::empty());
                (empty, Some(message))
            },
        },
        None => {
            let empty: Vec<Field> = Vec::new();
            assert(fields_view(empty@) =~= Seq::<FieldView>::empty());
            (empty, None)
        },
    }
}

/// Loads a configuration: the built-in default, then the JSON, YAML and TOML
/// override documents that are present, each admerged over the previous ones,
/// validated strictly. Every error is reported, malformed sources included.
pub fn load(json: Option<&str>, yaml: Option<&str>, toml: Option<&str>) -> (r: Result<
    Config,
    Vec<ValidationError>,
>)
    ensures
        r is Ok <==> is_valid(merged(override_layers(opt_view(json), opt_view(yaml), opt_view(toml))))
            && !source_malformed(ConfigFormat::Json, opt_view(json))
            && !source_malformed(ConfigFormat::Yaml, opt_view(yaml))
            && !source_malformed(ConfigFormat::Toml, opt_view(toml)),
        r matches Ok(c) ==> c@ == config_of(
            merged(override_layers(opt_view(json), opt_view(yaml), opt_view(toml))),
        ) && c@.wf(),
        r matches Err(es) ==> es.len() > 0 && forall|e: ErrorView|
            has_error(es@, e) <==> #[trigger] load_errors(opt_view(json), opt_view(yaml), opt_view(toml)).contains(e),
{
    let ghost (jv, yv, tv) = (opt_view(json), opt_view(yaml), opt_view(toml));
    let ghost m = merged(override_layers(jv, yv, tv));
    let (json_layer, json_bad) = decode_source(ConfigFormat::Json, json);
    let (yaml_layer, yaml_bad) = decode_source(ConfigFormat::Yaml, yaml);
    let (toml_layer, toml_bad) = decode_source(ConfigFormat::Toml, toml);
    let mut layers: Vec<Vec<Field>> = Vec::new();
    layers.push(json_layer);
    layers.push(yaml_layer);
    layers.push(toml_layer);
    assert(layers_view(layers@) =~= override_layers(jv, yv, tv));
    let (config, mut errors) = match load_layers(&layers) {
        Ok(c) => (Some(c), Vec::new()),
        Err(es) => (None, es),
    };
    proof {
        lemma_valid_iff_no_errors(m);
        if config is Some {
            assert(forall|e: ErrorView| !has_error(errors@, e) && !#[trigger] field_errors(m).contains(e));
        }
    }
    let ghost e0 = errors@;
    if let Some(message) = json_bad {
        errors.push(ValidationError::Malformed(ConfigFormat::Json, message));
        proof { lemma_push_error(e0, errors@.last()); assert(errors@ == e0.push(errors@.last())); }
    }
    let ghost e1 = errors@;
    if let Some(message) = yaml_bad {
        errors.push(ValidationError::Malformed(ConfigFormat::Yaml, message));
        proof { lemma_push_error(e1, errors@.last()); assert(errors@ == e1.push(errors@.last())); }
    }
    let ghost e2 = errors@;
    if let Some(message) = toml_bad {
        errors.push(ValidationError::Malformed(ConfigFormat::Toml, message));
        proof { lemma_push_error(e2, errors@.last()); assert(errors@ == e2.push(errors@.last())); }
    }
    proof {
        assert forall|e: ErrorView| has_error(errors@, e) <==> #[trigger] load_errors(jv, yv, tv).contains(e) by {
            if has_error(errors@, e) {
                assert(has_error(e0, e) || e == ErrorView::Malformed(ConfigFormat::Json) && json_bad is Some
                    || e == ErrorView::Malformed(ConfigFormat::Yaml) && yaml_bad is Some
                    || e == ErrorView::Malformed(ConfigFormat::Toml) && toml_bad is Some);
            }
            if field_errors(m).contains(e) {
                assert(has_error(e0, e));
            }
        }
        if errors.len() > 0 {
            assert(has_error(errors@, errors@[0]@));
        }
    }
    if errors.len() == 0 {
        match config {
            Some(c) => Ok(c),
            None => Err(errors),
        }
    } else {
        Err(errors)
    }
}

/// Loading with no override document present always yields exactly the
/// built-in default snapshot.
pub proof fn lemma_default_when_no_overrides()
    ensures
        is_valid(merged(override_layers(None, None, None))),
        config_of(merged(override_layers(None, None, None))) == default_config(),
        !source_malformed(ConfigFormat::Json, None),
        !source_malformed(ConfigFormat::Yaml, None),
        !source_malformed(ConfigFormat::Toml, None),
{
    let layers = override_layers(None, None, None);
    lemma_empty_layers(layers);
    lemma_load_without_overrides();
}

/// The fields a snapshot is written with.
pub open spec fn config_pairs(c: ConfigView) -> Seq<(Seq<char>, Seq<char>)> {
    seq![(shadow_key(), c.shadow_dir), (format_key(), c.preferred_config_type)]
}

/// The text a snapshot is persisted as, in its preferred format.
pub open spec fn encoded(c: ConfigView) -> Seq<char> {
    match c.format() {
        ConfigFormat::Json => json_text(config_pairs(c)),
        ConfigFormat::Yaml => yaml_text(config_pairs(c)),
        ConfigFormat::Toml => toml_text(config_pairs(c)),
    }
}

/// Encodes a snapshot with the encoder of its preferred format.
pub fn encode(config: &Config) -> (r: String)
    ensures
        r@ == encoded(config@),
{
    let mut fields: Vec<(String, String)> = Vec::new();
    fields.push((shadow_key_string(), config.shadow_dir.clone()));
    fields.push((format_key_string(), config.preferred_config_type.clone()));
    assert(pairs_view(fields@) =~= config_pairs(config@));
    let written = match config.format() {
        ConfigFormat::Json => encode_json(&fields),
        ConfigFormat::Yaml => encode_yaml(&fields),
        ConfigFormat::Toml => encode_toml(&fields),
    };
    match written {
        Ok(text) => text,
        // never taken: the encoders ensure success on string fields
        Err(message) => message,
    }
}

/// The name of the file a snapshot is persisted in: the base name with the
/// extension of its preferred format.
pub fn file_name(config: &Config) -> (r: String)
    ensures
        r@ == "shadot."@ + config@.format().spec_tag(),
{
    let mut name = String::from_str("shadot.");
    let tag = config.format().tag();
    name.append(tag.as_str());
    name
}

} // verus!
