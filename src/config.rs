use vstd::prelude::*;

verus! {

/// The serialization formats a configuration can be stored in.
#[derive(Clone, Copy, Debug, PartialEq, Eq, Structural)]
pub enum ConfigFormat {
    Toml,
    Yaml,
    Json,
}

/// The tag that names `toml` in a configuration document.
pub open spec fn toml_tag() -> Seq<char> {
    "toml"@
}

/// The tag that names `yaml` in a configuration document.
pub open spec fn yaml_tag() -> Seq<char> {
    "yaml"@
}

/// The tag that names `json` in a configuration document.
pub open spec fn json_tag() -> Seq<char> {
    "json"@
}

/// The format a tag names, if any.
pub open spec fn format_of_tag(t: Seq<char>) -> Option<ConfigFormat> {
    if t == toml_tag() {
        Some(ConfigFormat::Toml)
    } else if t == yaml_tag() {
        Some(ConfigFormat::Yaml)
    } else if t == json_tag() {
        Some(ConfigFormat::Json)
    } else {
        None
    }
}

impl ConfigFormat {
    pub open spec fn spec_tag(self) -> Seq<char> {
        match self {
            ConfigFormat::Toml => toml_tag(),
            ConfigFormat::Yaml => yaml_tag(),
            ConfigFormat::Json => json_tag(),
        }
    }

    /// The tag of this format, which is also the extension of its files.
    pub fn tag(self) -> (r: String)
        ensures
            r@ == self.spec_tag(),
    {
        match self {
            ConfigFormat::Toml => String::from_str("toml"),
            ConfigFormat::Yaml => String::from_str("yaml"),
            ConfigFormat::Json => String::from_str("json"),
        }
    }

    /// Reads a format tag; `None` for anything but the three known tags.
    pub fn from_tag(t: &String) -> (r: Option<ConfigFormat>)
        ensures
            r == format_of_tag(t@),
    {
        if *t == String::from_str("toml") {
            Some(ConfigFormat::Toml)
        } else if *t == String::from_str("yaml") {
            Some(ConfigFormat::Yaml)
        } else if *t == String::from_str("json") {
            Some(ConfigFormat::Json)
        } else {
            None
        }
    }
}

/// The document key of the shadow directory.
pub open spec fn shadow_key() -> Seq<char> {
    "shadow-directory"@
}

/// The document key of the preferred format.
pub open spec fn format_key() -> Seq<char> {
    "preferred-config-type"@
}

/// The shadow directory of the built-in default configuration.
pub open spec fn default_shadow_dir() -> Seq<char> {
    "~/.local/share/shadot"@
}

/// The two keys of the schema differ.
pub proof fn lemma_keys_distinct()
    ensures
        shadow_key() != format_key(),
{
    reveal_strlit("shadow-directory");
    reveal_strlit("preferred-config-type");
    assert(shadow_key()[0] != format_key()[0]);
}

pub fn shadow_key_string() -> (r: String)
    ensures
        r@ == shadow_key(),
{
    String::from_str("shadow-directory")
}

pub fn format_key_string() -> (r: String)
    ensures
        r@ == format_key(),
{
    String::from_str("preferred-config-type")
}

/// A configuration snapshot.
#[derive(Clone, Debug, PartialEq, Eq)]
pub struct Config {
    pub shadow_dir: String,
    pub preferred_config_type: String,
}

/// What a snapshot holds, as plain sequences.
pub struct ConfigView {
    pub shadow_dir: Seq<char>,
    pub preferred_config_type: Seq<char>,
}

impl View for Config {
    type V = ConfigView;

    open spec fn view(&self) -> ConfigView {
        ConfigView {
            shadow_dir: self.shadow_dir@,
            preferred_config_type: self.preferred_config_type@,
        }
    }
}

/// The built-in default snapshot.
pub open spec fn default_config() -> ConfigView {
    ConfigView { shadow_dir: default_shadow_dir(), preferred_config_type: toml_tag() }
}

impl ConfigView {
    /// A snapshot is well formed when its preferred format is one of the known tags.
    pub open spec fn wf(self) -> bool {
        format_of_tag(self.preferred_config_type) is Some
    }

    pub open spec fn format(self) -> ConfigFormat {
        format_of_tag(self.preferred_config_type).unwrap_or(ConfigFormat::Toml)
    }
}

impl Config {
    /// The built-in default snapshot.
    pub fn builtin() -> (r: Config)
        ensures
            r@ == default_config(),
            r@.wf(),
    {
        Config {
            shadow_dir: String::from_str("~/.local/share/shadot"),
            preferred_config_type: String::from_str("toml"),
        }
    }

    /// A copy of this snapshot, field for field.
    pub fn duplicate(&self) -> (r: Config)
        ensures
            r@ == self@,
    {
        Config {
            shadow_dir: self.shadow_dir.clone(),
            preferred_config_type: self.preferred_config_type.clone(),
        }
    }

    /// The format this snapshot is persisted in; an unknown tag falls back to TOML.
    pub fn format(&self) -> (r: ConfigFormat)
        ensures
            r == self@.format(),
    {
        match ConfigFormat::from_tag(&self.preferred_config_type) {
            Some(f) => f,
            None => ConfigFormat::Toml,
        }
    }
}

} // verus!
