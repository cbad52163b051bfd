//! ConfigMerger: the normalized conversion options, their engine
//! defaults, reading them from the `[options]` section of a TOML
//! document, reading them from command-line flag values, and the
//! precedence of a config file over individual style flags.
use vstd::prelude::*;
use crate::names::str_eq;

verus! {

/// Markdown heading style.
#[derive(Clone, Copy, PartialEq, Eq, Structural, Debug)]
pub enum HeadingStyle {
    Atx,
    Setex,
}

/// Horizontal-rule style.
#[derive(Clone, Copy, PartialEq, Eq, Structural, Debug)]
pub enum HrStyle {
    Dashes,
    Asterisks,
    Underscores,
}

/// Line-break style.
#[derive(Clone, Copy, PartialEq, Eq, Structural, Debug)]
pub enum BrStyle {
    TwoSpaces,
    Backslash,
}

/// Link style.
#[derive(Clone, Copy, PartialEq, Eq, Structural, Debug)]
pub enum LinkStyle {
    Inlined,
    InlinedPreferAutolinks,
    Referenced,
}

/// Link-reference style.
#[derive(Clone, Copy, PartialEq, Eq, Structural, Debug)]
pub enum LinkReferenceStyle {
    Full,
    Collapsed,
    Shortcut,
}

/// Code-block style.
#[derive(Clone, Copy, PartialEq, Eq, Structural, Debug)]
pub enum CodeBlockStyle {
    Indented,
    Fenced,
}

/// Code-block fence characters.
#[derive(Clone, Copy, PartialEq, Eq, Structural, Debug)]
pub enum CodeBlockFence {
    Tildes,
    Backticks,
}

/// Bullet-list marker character.
#[derive(Clone, Copy, PartialEq, Eq, Structural, Debug)]
pub enum BulletListMarker {
    Asterisk,
    Dash,
}

/// The normalized conversion options handed to the engine.
#[derive(Clone, Copy, PartialEq, Eq, Structural, Debug)]
pub struct ConverterOptions {
    pub heading_style: HeadingStyle,
    pub hr_style: HrStyle,
    pub br_style: BrStyle,
    pub link_style: LinkStyle,
    pub link_reference_style: LinkReferenceStyle,
    pub code_block_style: CodeBlockStyle,
    pub code_block_fence: CodeBlockFence,
    pub bullet_list_marker: BulletListMarker,
    pub ul_bullet_spacing: u8,
    pub ol_number_spacing: u8,
    pub preformatted_code: bool,
}

/// The conversion engine's own default options.
pub open spec fn spec_default_options() -> ConverterOptions {
    ConverterOptions {
        heading_style: HeadingStyle::Atx,
        hr_style: HrStyle::Asterisks,
        br_style: BrStyle::TwoSpaces,
        link_style: LinkStyle::Inlined,
        link_reference_style: LinkReferenceStyle::Full,
        code_block_style: CodeBlockStyle::Fenced,
        code_block_fence: CodeBlockFence::Backticks,
        bullet_list_marker: BulletListMarker::Asterisk,
        ul_bullet_spacing: 3,
        ol_number_spacing: 2,
        preformatted_code: false,
    }
}

impl Default for ConverterOptions {
    /// Mirrors the conversion engine's defaults.
    fn default() -> (r: Self)
        ensures
            r == spec_default_options(),
    {
        ConverterOptions {
            heading_style: HeadingStyle::Atx,
            hr_style: HrStyle::Asterisks,
            br_style: BrStyle::TwoSpaces,
            link_style: LinkStyle::Inlined,
            link_reference_style: LinkReferenceStyle::Full,
            code_block_style: CodeBlockStyle::Fenced,
            code_block_fence: CodeBlockFence::Backticks,
            bullet_list_marker: BulletListMarker::Asterisk,
            ul_bullet_spacing: 3,
            ol_number_spacing: 2,
            preformatted_code: false,
        }
    }
}

/// The full merged configuration of one invocation.
#[derive(Clone, Debug)]
pub struct CliOptions {
    pub converter_options: ConverterOptions,
    pub ignored_tags: Option<Vec<String>>,
    pub flatten_output: bool,
    pub scripting_enabled: bool,
}

/// The mathematical value of a merged configuration.
pub struct CliOptionsV {
    pub converter_options: ConverterOptions,
    pub ignored_tags: Option<Seq<Seq<char>>>,
    pub flatten_output: bool,
    pub scripting_enabled: bool,
}

impl View for CliOptions {
    type V = CliOptionsV;

    open spec fn view(&self) -> CliOptionsV {
        CliOptionsV {
            converter_options: self.converter_options,
            ignored_tags: match self.ignored_tags {
                Some(v) => Some(v.deep_view()),
                None => None,
            },
            flatten_output: self.flatten_output,
            scripting_enabled: self.scripting_enabled,
        }
    }
}

/// A configuration reading failed; the message says which key and why.
#[derive(Debug)]
pub struct ParseConfigError {
    pub message: String,
}

impl ParseConfigError {
    /// Wraps a diagnostic message.
    pub fn new(message: &str) -> (r: Self)
        ensures
            r.message@ == message@,
    {
        ParseConfigError { message: message.to_owned() }
    }
}

/// Wraps a diagnostic message as a configuration error.
pub fn parse_config_err(message: &str) -> (r: ParseConfigError)
    ensures
        r.message@ == message@,
{
    ParseConfigError::new(message)
}

/// The primitive shape of one TOML value, with its contents where the
/// configuration reads them; an array reports each element's string
/// content, or nothing for a non-string element.
pub enum TomlShape {
    Str(String),
    Bool(bool),
    Int(i64),
    StrArr(Vec<Option<String>>),
    Other,
}

#[verifier::external_type_specification]
#[verifier::external_body]
pub struct ExTomlValue(toml::Value);

/// What parsing a text as a TOML document yields: the document value,
/// or the parser's diagnostic.
pub uninterp spec fn toml_parsed(text: Seq<char>) -> Result<toml::Value, Seq<char>>;

/// The value that a TOML table holds under a key, if the value is a
/// table and has the key.
pub uninterp spec fn toml_entry(v: toml::Value, key: Seq<char>) -> Option<toml::Value>;

/// The primitive shape and contents of a TOML value.
pub uninterp spec fn toml_shape_of(v: toml::Value) -> TomlShape;

/// Relies on toml::from_str: parses the text as a TOML document; the
/// result is a function of the text alone.
#[verifier::external_body]
fn toml_parse(text: &str) -> (r: Result<toml::Value, String>)
    ensures
        r matches Ok(v) ==> toml_parsed(text@) matches Ok(v2) && v == v2,
        r matches Err(m) ==> toml_parsed(text@) matches Err(m2) && m@ == m2,
{
    match toml::from_str::<toml::Value>(text) {
        Ok(v) => Ok(v),
        Err(e) => Err(e.to_string()),
    }
}

/// Relies on toml::Value::get: looks a key up in a TOML value, yielding
/// nothing when the value is not a table or lacks the key.
#[verifier::external_body]
fn toml_get<'a>(v: &'a toml::Value, key: &str) -> (r: Option<&'a toml::Value>)
    ensures
        r matches Some(x) ==> toml_entry(*v, key@) matches Some(x2) && *x == x2,
        r is None ==> toml_entry(*v, key@) is None,
{
    v.get(key)
}

/// Relies on toml::Value's accessors (as_str, as_bool, as_integer,
/// as_array): reports the value's primitive shape and contents.
#[verifier::external_body]
fn toml_shape(v: &toml::Value) -> (r: TomlShape)
    ensures
        r == toml_shape_of(*v),
{
    match v {
        toml::Value::String(s) => TomlShape::Str(s.clone()),
        toml::Value::Boolean(b) => TomlShape::Bool(*b),
        toml::Value::Integer(i) => TomlShape::Int(*i),
        toml::Value::Array(a) => TomlShape::StrArr(
            a.iter().map(|e| e.as_str().map(|s| s.to_owned())).collect(),
        ),
        toml::Value::Float(_) => TomlShape::Other,
        toml::Value::Datetime(_) => TomlShape::Other,
        toml::Value::Table(_) => TomlShape::Other,
    }
}

/// The diagnostic for an option key whose value has the wrong type.
pub open spec fn spec_type_err(name: Seq<char>, kind: Seq<char>) -> Seq<char> {
    "options."@ + name + kind
}

/// The diagnostic for an enumerated option key with an unrecognized
/// value.
pub open spec fn spec_unknown_value_err(name: Seq<char>, s: Seq<char>) -> Seq<char> {
    "Unknown "@ + name + " value '"@ + s + "'"@
}

fn type_err(name: &str, kind: &str) -> (r: ParseConfigError)
    ensures
        r.message@ == spec_type_err(name@, kind@),
{
    let mut m: String = "options.".to_owned();
    m.append(name);
    m.append(kind);
    ParseConfigError { message: m }
}

fn unknown_value_err(name: &str, s: &str) -> (r: ParseConfigError)
    ensures
        r.message@ == spec_unknown_value_err(name@, s@),
{
    let mut m: String = "Unknown ".to_owned();
    m.append(name);
    m.append(" value '");
    m.append(s);
    m.append("'");
    ParseConfigError { message: m }
}

/// The string value of one option key: absent, present, or a
/// wrong-type diagnostic.
pub open spec fn spec_str_field(opts: toml::Value, name: Seq<char>) -> Result<
    Option<Seq<char>>,
    Seq<char>,
> {
    match toml_entry(opts, name) {
        None => Ok(None),
        Some(v) => match toml_shape_of(v) {
            TomlShape::Str(s) => Ok(Some(s@)),
            _ => Err(spec_type_err(name, " must be a string"@)),
        },
    }
}

/// The boolean value of one option key.
pub open spec fn spec_bool_field(opts: toml::Value, name: Seq<char>) -> Result<
    Option<bool>,
    Seq<char>,
> {
    match toml_entry(opts, name) {
        None => Ok(None),
        Some(v) => match toml_shape_of(v) {
            TomlShape::Bool(b) => Ok(Some(b)),
            _ => Err(spec_type_err(name, " must be a boolean"@)),
        },
    }
}

/// The small-integer value of one option key; integers outside the
/// byte range are rejected like wrong types.
pub open spec fn spec_u8_field(opts: toml::Value, name: Seq<char>) -> Result<
    Option<u8>,
    Seq<char>,
> {
    match toml_entry(opts, name) {
        None => Ok(None),
        Some(v) => match toml_shape_of(v) {
            TomlShape::Int(i) => if 0 <= i <= 255 {
                Ok(Some(i as u8))
            } else {
                Err(spec_type_err(name, " must be an u8 integer"@))
            },
            _ => Err(spec_type_err(name, " must be an u8 integer"@)),
        },
    }
}

fn str_field(opts: &toml::Value, name: &str) -> (r: Result<Option<String>, ParseConfigError>)
    ensures
        r matches Ok(o) ==> spec_str_field(*opts, name@) matches Ok(o2) && (o matches Some(s)
            ==> o2 matches Some(s2) && s@ == s2) && (o is None ==> o2 is None),
        r matches Err(e) ==> spec_str_field(*opts, name@) matches Err(m) && e.message@ == m,
{
    match toml_get(opts, name) {
        None => Ok(None),
        Some(v) => match toml_shape(v) {
            TomlShape::Str(s) => Ok(Some(s)),
            _ => Err(type_err(name, " must be a string")),
        },
    }
}

fn bool_field(opts: &toml::Value, name: &str) -> (r: Result<Option<bool>, ParseConfigError>)
    ensures
        r matches Ok(o) ==> spec_bool_field(*opts, name@) == Ok::<Option<bool>, Seq<char>>(o),
        r matches Err(e) ==> spec_bool_field(*opts, name@) matches Err(m) && e.message@ == m,
{
    match toml_get(opts, name) {
        None => Ok(None),
        Some(v) => match toml_shape(v) {
            TomlShape::Bool(b) => Ok(Some(b)),
            _ => Err(type_err(name, " must be a boolean")),
        },
    }
}

fn u8_field(opts: &toml::Value, name: &str) -> (r: Result<Option<u8>, ParseConfigError>)
    ensures
        r matches Ok(o) ==> spec_u8_field(*opts, name@) == Ok::<Option<u8>, Seq<char>>(o),
        r matches Err(e) ==> spec_u8_field(*opts, name@) matches Err(m) && e.message@ == m,
{
    match toml_get(opts, name) {
        None => Ok(None),
        Some(v) => match toml_shape(v) {
            TomlShape::Int(i) => {
                if 0 <= i && i <= 255 {
                    Ok(Some(i as u8))
                } else {
                    Err(type_err(name, " must be an u8 integer"))
                }
            },
            _ => Err(type_err(name, " must be an u8 integer")),
        },
    }
}

/// One enumerated option key: absent means the engine default, a
/// recognized literal means its variant, anything else is rejected.
pub open spec fn spec_enum_field<T>(
    opts: toml::Value,
    name: Seq<char>,
    parse: spec_fn(Seq<char>) -> Option<T>,
    default: T,
) -> Result<T, Seq<char>> {
    match spec_str_field(opts, name) {
        Err(m) => Err(m),
        Ok(None) => Ok(default),
        Ok(Some(s)) => match parse(s) {
            Some(v) => Ok(v),
            None => Err(spec_unknown_value_err(name, s)),
        },
    }
}

pub open spec fn spec_heading_value(s: Seq<char>) -> Option<HeadingStyle> {
    if s == "atx"@ {
        Some(HeadingStyle::Atx)
    } else if s == "setex"@ {
        Some(HeadingStyle::Setex)
    } else {
        None
    }
}

pub open spec fn spec_heading_field(opts: toml::Value) -> Result<HeadingStyle, Seq<char>> {
    spec_enum_field(
        opts,
        "heading-style"@,
        |s: Seq<char>| spec_heading_value(s),
        HeadingStyle::Atx,
    )
}

fn heading_field(opts: &toml::Value) -> (r: Result<HeadingStyle, ParseConfigError>)
    ensures
        r matches Ok(v) ==> spec_heading_field(*opts) == Ok::<HeadingStyle, Seq<char>>(v),
        r matches Err(e) ==> spec_heading_field(*opts) matches Err(m) && e.message@ == m,
{
    match str_field(opts, "heading-style") {
        Err(e) => Err(e),
        Ok(None) => Ok(HeadingStyle::Atx),
        Ok(Some(s)) => {
            if str_eq(s.as_str(), "atx") {
                Ok(HeadingStyle::Atx)
            } else if str_eq(s.as_str(), "setex") {
                Ok(HeadingStyle::Setex)
            } else {
                Err(unknown_value_err("heading-style", s.as_str()))
            }
        },
    }
}

pub open spec fn spec_hr_value(s: Seq<char>) -> Option<HrStyle> {
    if s == "asterisks"@ {
        Some(HrStyle::Asterisks)
    } else if s == "dashes"@ {
        Some(HrStyle::Dashes)
    } else if s == "underscores"@ {
        Some(HrStyle::Underscores)
    } else {
        None
    }
}

pub open spec fn spec_hr_field(opts: toml::Value) -> Result<HrStyle, Seq<char>> {
    spec_enum_field(opts, "hr-style"@, |s: Seq<char>| spec_hr_value(s), HrStyle::Asterisks)
}

fn hr_field(opts: &toml::Value) -> (r: Result<HrStyle, ParseConfigError>)
    ensures
        r matches Ok(v) ==> spec_hr_field(*opts) == Ok::<HrStyle, Seq<char>>(v),
        r matches Err(e) ==> spec_hr_field(*opts) matches Err(m) && e.message@ == m,
{
    match str_field(opts, "hr-style") {
        Err(e) => Err(e),
        Ok(None) => Ok(HrStyle::Asterisks),
        Ok(Some(s)) => {
            if str_eq(s.as_str(), "asterisks") {
                Ok(HrStyle::Asterisks)
            } else if str_eq(s.as_str(), "dashes") {
                Ok(HrStyle::Dashes)
            } else if str_eq(s.as_str(), "underscores") {
                Ok(HrStyle::Underscores)
            } else {
                Err(unknown_value_err("hr-style", s.as_str()))
            }
        },
    }
}

pub open spec fn spec_br_value(s: Seq<char>) -> Option<BrStyle> {
    if s == "two-spaces"@ {
        Some(BrStyle::TwoSpaces)
    } else if s == "backslash"@ {
        Some(BrStyle::Backslash)
    } else {
        None
    }
}

pub open spec fn spec_br_field(opts: toml::Value) -> Result<BrStyle, Seq<char>> {
    spec_enum_field(opts, "br-style"@, |s: Seq<char>| spec_br_value(s), BrStyle::TwoSpaces)
}

fn br_field(opts: &toml::Value) -> (r: Result<BrStyle, ParseConfigError>)
    ensures
        r matches Ok(v) ==> spec_br_field(*opts) == Ok::<BrStyle, Seq<char>>(v),
        r matches Err(e) ==> spec_br_field(*opts) matches Err(m) && e.message@ == m,
{
    match str_field(opts, "br-style") {
        Err(e) => Err(e),
        Ok(None) => Ok(BrStyle::TwoSpaces),
        Ok(Some(s)) => {
            if str_eq(s.as_str(), "two-spaces") {
                Ok(BrStyle::TwoSpaces)
            } else if str_eq(s.as_str(), "backslash") {
                Ok(BrStyle::Backslash)
            } else {
                Err(unknown_value_err("br-style", s.as_str()))
            }
        },
    }
}

pub open spec fn spec_link_value(s: Seq<char>) -> Option<LinkStyle> {
    if s == "inlined"@ {
        Some(LinkStyle::Inlined)
    } else if s == "inlined-prefer-autolinks"@ {
        Some(LinkStyle::InlinedPreferAutolinks)
    } else if s == "referenced"@ {
        Some(LinkStyle::Referenced)
    } else {
        None
    }
}

pub open spec fn spec_link_field(opts: toml::Value) -> Result<LinkStyle, Seq<char>> {
    spec_enum_field(opts, "link-style"@, |s: Seq<char>| spec_link_value(s), LinkStyle::Inlined)
}

fn link_field(opts: &toml::Value) -> (r: Result<LinkStyle, ParseConfigError>)
    ensures
        r matches Ok(v) ==> spec_link_field(*opts) == Ok::<LinkStyle, Seq<char>>(v),
        r matches Err(e) ==> spec_link_field(*opts) matches Err(m) && e.message@ == m,
{
    match str_field(opts, "link-style") {
        Err(e) => Err(e),
        Ok(None) => Ok(LinkStyle::Inlined),
        Ok(Some(s)) => {
            if str_eq(s.as_str(), "inlined") {
                Ok(LinkStyle::Inlined)
            } else if str_eq(s.as_str(), "inlined-prefer-autolinks") {
                Ok(LinkStyle::InlinedPreferAutolinks)
            } else if str_eq(s.as_str(), "referenced") {
                Ok(LinkStyle::Referenced)
            } else {
                Err(unknown_value_err("link-style", s.as_str()))
            }
        },
    }
}

pub open spec fn spec_link_ref_value(s: Seq<char>) -> Option<LinkReferenceStyle> {
    if s == "full"@ {
        Some(LinkReferenceStyle::Full)
    } else if s == "collapsed"@ {
        Some(LinkReferenceStyle::Collapsed)
    } else if s == "shortcut"@ {
        Some(LinkReferenceStyle::Shortcut)
    } else {
        None
    }
}

pub open spec fn spec_link_ref_field(opts: toml::Value) -> Result<LinkReferenceStyle, Seq<char>> {
    spec_enum_field(
        opts,
        "link-reference-style"@,
        |s: Seq<char>| spec_link_ref_value(s),
        LinkReferenceStyle::Full,
    )
}

fn link_ref_field(opts: &toml::Value) -> (r: Result<LinkReferenceStyle, ParseConfigError>)
    ensures
        r matches Ok(v) ==> spec_link_ref_field(*opts) == Ok::<LinkReferenceStyle, Seq<char>>(v),
        r matches Err(e) ==> spec_link_ref_field(*opts) matches Err(m) && e.message@ == m,
{
    match str_field(opts, "link-reference-style") {
        Err(e) => Err(e),
        Ok(None) => Ok(LinkReferenceStyle::Full),
        Ok(Some(s)) => {
            if str_eq(s.as_str(), "full") {
                Ok(LinkReferenceStyle::Full)
            } else if str_eq(s.as_str(), "collapsed") {
                Ok(LinkReferenceStyle::Collapsed)
            } else if str_eq(s.as_str(), "shortcut") {
                Ok(LinkReferenceStyle::Shortcut)
            } else {
                Err(unknown_value_err("link-reference-style", s.as_str()))
            }
        },
    }
}

pub open spec fn spec_code_block_style_value(s: Seq<char>) -> Option<CodeBlockStyle> {
    if s == "fenced"@ {
        Some(CodeBlockStyle::Fenced)
    } else if s == "indented"@ {
        Some(CodeBlockStyle::Indented)
    } else {
        None
    }
}

pub open spec fn spec_code_block_style_field(opts: toml::Value) -> Result<
    CodeBlockStyle,
    Seq<char>,
> {
    spec_enum_field(
        opts,
        "code-block-style"@,
        |s: Seq<char>| spec_code_block_style_value(s),
        CodeBlockStyle::Fenced,
    )
}

fn code_block_style_field(opts: &toml::Value) -> (r: Result<CodeBlockStyle, ParseConfigError>)
    ensures
        r matches Ok(v) ==> spec_code_block_style_field(*opts) == Ok::<CodeBlockStyle, Seq<char>>(
            v,
        ),
        r matches Err(e) ==> spec_code_block_style_field(*opts) matches Err(m) && e.message@ == m,
{
    match str_field(opts, "code-block-style") {
        Err(e) => Err(e),
        Ok(None) => Ok(CodeBlockStyle::Fenced),
        Ok(Some(s)) => {
            if str_eq(s.as_str(), "fenced") {
                Ok(CodeBlockStyle::Fenced)
            } else if str_eq(s.as_str(), "indented") {
                Ok(CodeBlockStyle::Indented)
            } else {
                Err(unknown_value_err("code-block-style", s.as_str()))
            }
        },
    }
}

pub open spec fn spec_code_block_fence_value(s: Seq<char>) -> Option<CodeBlockFence> {
    if s == "backticks"@ {
        Some(CodeBlockFence::Backticks)
    } else if s == "tildes"@ {
        Some(CodeBlockFence::Tildes)
    } else {
        None
    }
}

pub open spec fn spec_code_block_fence_field(opts: toml::Value) -> Result<
    CodeBlockFence,
    Seq<char>,
> {
    spec_enum_field(
        opts,
        "code-block-fence"@,
        |s: Seq<char>| spec_code_block_fence_value(s),
        CodeBlockFence::Backticks,
    )
}

fn code_block_fence_field(opts: &toml::Value) -> (r: Result<CodeBlockFence, ParseConfigError>)
    ensures
        r matches Ok(v) ==> spec_code_block_fence_field(*opts) == Ok::<CodeBlockFence, Seq<char>>(
            v,
        ),
        r matches Err(e) ==> spec_code_block_fence_field(*opts) matches Err(m) && e.message@ == m,
{
    match str_field(opts, "code-block-fence") {
        Err(e) => Err(e),
        Ok(None) => Ok(CodeBlockFence::Backticks),
        Ok(Some(s)) => {
            if str_eq(s.as_str(), "backticks") {
                Ok(CodeBlockFence::Backticks)
            } else if str_eq(s.as_str(), "tildes") {
                Ok(CodeBlockFence::Tildes)
            } else {
                Err(unknown_value_err("code-block-fence", s.as_str()))
            }
        },
    }
}

pub open spec fn spec_bullet_value(s: Seq<char>) -> Option<BulletListMarker> {
    if s == "asterisk"@ {
        Some(BulletListMarker::Asterisk)
    } else if s == "dash"@ {
        Some(BulletListMarker::Dash)
    } else {
        None
    }
}

pub open spec fn spec_bullet_field(opts: toml::Value) -> Result<BulletListMarker, Seq<char>> {
    spec_enum_field(
        opts,
        "bullet-list-marker"@,
        |s: Seq<char>| spec_bullet_value(s),
        BulletListMarker::Asterisk,
    )
}

fn bullet_field(opts: &toml::Value) -> (r: Result<BulletListMarker, ParseConfigError>)
    ensures
        r matches Ok(v) ==> spec_bullet_field(*opts) == Ok::<BulletListMarker, Seq<char>>(v),
        r matches Err(e) ==> spec_bullet_field(*opts) matches Err(m) && e.message@ == m,
{
    match str_field(opts, "bullet-list-marker") {
        Err(e) => Err(e),
        Ok(None) => Ok(BulletListMarker::Asterisk),
        Ok(Some(s)) => {
            if str_eq(s.as_str(), "asterisk") {
                Ok(BulletListMarker::Asterisk)
            } else if str_eq(s.as_str(), "dash") {
                Ok(BulletListMarker::Dash)
            } else {
                Err(unknown_value_err("bullet-list-marker", s.as_str()))
            }
        },
    }
}

/// The conversion options an `[options]` table denotes: each key read
/// in order, the first failure ending the reading.
pub open spec fn spec_converter_options_from_table(opts: toml::Value) -> Result<
    ConverterOptions,
    Seq<char>,
> {
    match spec_heading_field(opts) {
        Err(m) => Err(m),
        Ok(heading_style) => match spec_hr_field(opts) {
            Err(m) => Err(m),
            Ok(hr_style) => match spec_br_field(opts) {
                Err(m) => Err(m),
                Ok(br_style) => match spec_link_field(opts) {
                    Err(m) => Err(m),
                    Ok(link_style) => match spec_link_ref_field(opts) {
                        Err(m) => Err(m),
                        Ok(link_reference_style) => match spec_code_block_style_field(opts) {
                            Err(m) => Err(m),
                            Ok(code_block_style) => match spec_code_block_fence_field(opts) {
                                Err(m) => Err(m),
                                Ok(code_block_fence) => match spec_bullet_field(opts) {
                                    Err(m) => Err(m),
                                    Ok(bullet_list_marker) => match spec_bool_field(
                                        opts,
                                        "preformatted-code"@,
                                    ) {
                                        Err(m) => Err(m),
                                        Ok(pc) => match spec_u8_field(opts, "ul-bullet-spacing"@) {
                                            Err(m) => Err(m),
                                            Ok(ul) => match spec_u8_field(
                                                opts,
                                                "ol-number-spacing"@,
                                            ) {
                                                Err(m) => Err(m),
                                                Ok(ol) => Ok(
                                                    ConverterOptions {
                                                        heading_style,
                                                        hr_style,
                                                        br_style,
                                                        link_style,
                                                        link_reference_style,
                                                        code_block_style,
                                                        code_block_fence,
                                                        bullet_list_marker,
                                                        ul_bullet_spacing: match ul {
                                                            Some(v) => v,
                                                            None => 3,
                                                        },
                                                        ol_number_spacing: match ol {
                                                            Some(v) => v,
                                                            None => 2,
                                                        },
                                                        preformatted_code: match pc {
                                                            Some(b) => b,
                                                            None => false,
                                                        },
                                                    },
                                                ),
                                            },
                                        },
                                    },
                                },
                            },
                        },
                    },
                },
            },
        },
    }
}

/// Reads the conversion options out of an `[options]` table value.
pub fn read_converter_options(opts: &toml::Value) -> (r: Result<ConverterOptions, ParseConfigError>)
    ensures
        r matches Ok(c) ==> spec_converter_options_from_table(*opts) == Ok::<
            ConverterOptions,
            Seq<char>,
        >(c),
        r matches Err(e) ==> spec_converter_options_from_table(*opts) matches Err(m) && e.message@
            == m,
{
    let heading_style = match heading_field(opts) {
        Ok(v) => v,
        Err(e) => {
            return Err(e);
        },
    };
    let hr_style = match hr_field(opts) {
        Ok(v) => v,
        Err(e) => {
            return Err(e);
        },
    };
    let br_style = match br_field(opts) {
        Ok(v) => v,
        Err(e) => {
            return Err(e);
        },
    };
    let link_style = match link_field(opts) {
        Ok(v) => v,
        Err(e) => {
            return Err(e);
        },
    };
    let link_reference_style = match link_ref_field(opts) {
        Ok(v) => v,
        Err(e) => {
            return Err(e);
        },
    };
    let code_block_style = match code_block_style_field(opts) {
        Ok(v) => v,
        Err(e) => {
            return Err(e);
        },
    };
    let code_block_fence = match code_block_fence_field(opts) {
        Ok(v) => v,
        Err(e) => {
            return Err(e);
        },
    };
    let bullet_list_marker = match bullet_field(opts) {
        Ok(v) => v,
        Err(e) => {
            return Err(e);
        },
    };
    let preformatted_code = match bool_field(opts, "preformatted-code") {
        Ok(Some(b)) => b,
        Ok(None) => false,
        Err(e) => {
            return Err(e);
        },
    };
    let ul_bullet_spacing = match u8_field(opts, "ul-bullet-spacing") {
        Ok(Some(v)) => v,
        Ok(None) => 3,
        Err(e) => {
            return Err(e);
        },
    };
    let ol_number_spacing = match u8_field(opts, "ol-number-spacing") {
        Ok(Some(v)) => v,
        Ok(None) => 2,
        Err(e) => {
            return Err(e);
        },
    };
    Ok(
        ConverterOptions {
            heading_style,
            hr_style,
            br_style,
            link_style,
            link_reference_style,
            code_block_style,
            code_block_fence,
            bullet_list_marker,
            ul_bullet_spacing,
            ol_number_spacing,
            preformatted_code,
        },
    )
}

/// The ignored-tags array value of an `[options]` table, when every
/// element is a string.
pub open spec fn spec_tags_field(opts: toml::Value) -> Result<Option<Seq<Seq<char>>>, Seq<char>> {
    match toml_entry(opts, "ignored-tags"@) {
        None => Ok(None),
        Some(v) => match toml_shape_of(v) {
            TomlShape::StrArr(elems) => if forall|i: int|
                0 <= i < elems@.len() ==> (#[trigger] elems@[i]) is Some {
                Ok(Some(Seq::new(elems@.len(), |i: int| elems@[i].unwrap()@)))
            } else {
                Err("Non-string element found in options.ignored-tags"@)
            },
            _ => Err("options.ignored-tags must be an string array"@),
        },
    }
}

/// Reads the ignored-tags list out of an `[options]` table value.
pub fn read_ignored_tags(opts: &toml::Value) -> (r: Result<Option<Vec<String>>, ParseConfigError>)
    ensures
        r matches Ok(o) ==> spec_tags_field(*opts) matches Ok(o2) && (o matches Some(v) ==> o2
            matches Some(v2) && v.deep_view() == v2) && (o is None ==> o2 is None),
        r matches Err(e) ==> spec_tags_field(*opts) matches Err(m) && e.message@ == m,
{
    match toml_get(opts, "ignored-tags") {
        None => Ok(None),
        Some(v) => match toml_shape(v) {
            TomlShape::StrArr(elems) => {
                let mut tags: Vec<String> = Vec::new();
                let mut i: usize = 0;
                while i < elems.len()
                    invariant
                        i <= elems@.len(),
                        tags@.len() == i,
                        toml_entry(*opts, "ignored-tags"@) matches Some(v2) && toml_shape_of(v2)
                            == TomlShape::StrArr(elems),
                        forall|j: int| 0 <= j < i ==> (#[trigger] elems@[j]) is Some,
                        forall|j: int|
                            0 <= j < i ==> (#[trigger] tags@[j])@ == elems@[j].unwrap()@,
                    decreases elems@.len() - i,
                {
                    match &elems[i] {
                        Some(s) => {
                            tags.push(s.clone());
                        },
                        None => {
                            return Err(
                                ParseConfigError::new(
                                    "Non-string element found in options.ignored-tags",
                                ),
                            );
                        },
                    }
                    i += 1;
                }
                proof {
                    assert(tags.deep_view() =~= Seq::new(
                        elems@.len(),
                        |i: int| elems@[i].unwrap()@,
                    ));
                }
                Ok(Some(tags))
            },
            TomlShape::Str(_) => Err(
                ParseConfigError::new("options.ignored-tags must be an string array"),
            ),
            TomlShape::Bool(_) => Err(
                ParseConfigError::new("options.ignored-tags must be an string array"),
            ),
            TomlShape::Int(_) => Err(
                ParseConfigError::new("options.ignored-tags must be an string array"),
            ),
            TomlShape::Other => Err(
                ParseConfigError::new("options.ignored-tags must be an string array"),
            ),
        },
    }
}

/// The merged configuration an `[options]` table denotes.
pub open spec fn spec_cli_options_from_table(opts: toml::Value) -> Result<CliOptionsV, Seq<char>> {
    match spec_converter_options_from_table(opts) {
        Err(m) => Err(m),
        Ok(conv) => match spec_tags_field(opts) {
            Err(m) => Err(m),
            Ok(tags) => match spec_bool_field(opts, "flatten-output"@) {
                Err(m) => Err(m),
                Ok(fo) => match spec_bool_field(opts, "scripting-enabled"@) {
                    Err(m) => Err(m),
                    Ok(se) => Ok(
                        CliOptionsV {
                            converter_options: conv,
                            ignored_tags: tags,
                            flatten_output: match fo {
                                Some(b) => b,
                                None => false,
                            },
                            scripting_enabled: match se {
                                Some(b) => b,
                                None => true,
                            },
                        },
                    ),
                },
            },
        },
    }
}

/// The merged configuration a whole TOML document denotes: a parse
/// failure or a missing `[options]` section is fatal.
pub open spec fn spec_cli_options_from_toml(text: Seq<char>) -> Result<CliOptionsV, Seq<char>> {
    match toml_parsed(text) {
        Err(m) => Err(m),
        Ok(v) => match toml_entry(v, "options"@) {
            None => Err("No [options] in the config file."@),
            Some(opts) => spec_cli_options_from_table(opts),
        },
    }
}

/// Reads the merged configuration from the text of a TOML config file;
/// the config file is the exclusive source of every option it covers.
pub fn read_cli_options_from_toml(text: &str) -> (r: Result<CliOptions, ParseConfigError>)
    ensures
        r matches Ok(c) ==> spec_cli_options_from_toml(text@) matches Ok(cv) && c@ == cv,
        r matches Err(e) ==> spec_cli_options_from_toml(text@) matches Err(m) && e.message@ == m,
{
    let doc = match toml_parse(text) {
        Ok(v) => v,
        Err(m) => {
            return Err(ParseConfigError { message: m });
        },
    };
    let opts = match toml_get(&doc, "options") {
        Some(o) => o,
        None => {
            return Err(ParseConfigError::new("No [options] in the config file."));
        },
    };
    let converter_options = match read_converter_options(opts) {
        Ok(c) => c,
        Err(e) => {
            return Err(e);
        },
    };
    let ignored_tags = match read_ignored_tags(opts) {
        Ok(t) => t,
        Err(e) => {
            return Err(e);
        },
    };
    let flatten_output = match bool_field(opts, "flatten-output") {
        Ok(Some(b)) => b,
        Ok(None) => false,
        Err(e) => {
            return Err(e);
        },
    };
    let scripting_enabled = match bool_field(opts, "scripting-enabled") {
        Ok(Some(b)) => b,
        Ok(None) => true,
        Err(e) => {
            return Err(e);
        },
    };
    Ok(CliOptions { converter_options, ignored_tags, flatten_output, scripting_enabled })
}

/// The raw values of the command-line style flags, as the grammar
/// hands them over: one optional literal per enumerated flag, the two
/// boolean flags, and the raw comma-separated ignored-tags value.
pub struct CliStyleArgs {
    pub heading_style: Option<String>,
    pub hr_style: Option<String>,
    pub br_style: Option<String>,
    pub link_style: Option<String>,
    pub link_reference_style: Option<String>,
    pub code_block_style: Option<String>,
    pub code_block_fence: Option<String>,
    pub bullet_list_marker: Option<String>,
    pub preformatted_code: bool,
    pub ignored_tags: Option<String>,
    pub flatten_output: bool,
}

pub open spec fn spec_opt_view(o: Option<String>) -> Option<Seq<char>> {
    match o {
        Some(s) => Some(s@),
        None => None,
    }
}

pub open spec fn spec_heading_from_cli(o: Option<Seq<char>>) -> HeadingStyle {
    match o {
        Some(s) => if s == "setex"@ {
            HeadingStyle::Setex
        } else {
            HeadingStyle::Atx
        },
        None => HeadingStyle::Atx,
    }
}

pub open spec fn spec_hr_from_cli(o: Option<Seq<char>>) -> HrStyle {
    match o {
        Some(s) => if s == "dashes"@ {
            HrStyle::Dashes
        } else if s == "underscores"@ {
            HrStyle::Underscores
        } else {
            HrStyle::Asterisks
        },
        None => HrStyle::Asterisks,
    }
}

pub open spec fn spec_br_from_cli(o: Option<Seq<char>>) -> BrStyle {
    match o {
        Some(s) => if s == "backslash"@ {
            BrStyle::Backslash
        } else {
            BrStyle::TwoSpaces
        },
        None => BrStyle::TwoSpaces,
    }
}

pub open spec fn spec_link_from_cli(o: Option<Seq<char>>) -> LinkStyle {
    match o {
        Some(s) => if s == "referenced"@ {
            LinkStyle::Referenced
        } else {
            LinkStyle::Inlined
        },
        None => LinkStyle::Inlined,
    }
}

pub open spec fn spec_link_ref_from_cli(o: Option<Seq<char>>) -> LinkReferenceStyle {
    match o {
        Some(s) => if s == "collapsed"@ {
            LinkReferenceStyle::Collapsed
        } else if s == "shortcut"@ {
            LinkReferenceStyle::Shortcut
        } else {
            LinkReferenceStyle::Full
        },
        None => LinkReferenceStyle::Full,
    }
}

pub open spec fn spec_code_block_style_from_cli(o: Option<Seq<char>>) -> CodeBlockStyle {
    match o {
        Some(s) => if s == "indented"@ {
            CodeBlockStyle::Indented
        } else {
            CodeBlockStyle::Fenced
        },
        None => CodeBlockStyle::Fenced,
    }
}

pub open spec fn spec_code_block_fence_from_cli(o: Option<Seq<char>>) -> CodeBlockFence {
    match o {
        Some(s) => if s == "tildes"@ {
            CodeBlockFence::Tildes
        } else {
            CodeBlockFence::Backticks
        },
        None => CodeBlockFence::Backticks,
    }
}

pub open spec fn spec_bullet_from_cli(o: Option<Seq<char>>) -> BulletListMarker {
    match o {
        Some(s) => if s == "dash"@ {
            BulletListMarker::Dash
        } else {
            BulletListMarker::Asterisk
        },
        None => BulletListMarker::Asterisk,
    }
}

/// The conversion options the style flags denote: each absent or
/// unrecognized flag falls back to the flag's declared default.
pub open spec fn spec_options_from_cli(args: CliStyleArgs) -> ConverterOptions {
    ConverterOptions {
        heading_style: spec_heading_from_cli(spec_opt_view(args.heading_style)),
        hr_style: spec_hr_from_cli(spec_opt_view(args.hr_style)),
        br_style: spec_br_from_cli(spec_opt_view(args.br_style)),
        link_style: spec_link_from_cli(spec_opt_view(args.link_style)),
        link_reference_style: spec_link_ref_from_cli(spec_opt_view(args.link_reference_style)),
        code_block_style: spec_code_block_style_from_cli(spec_opt_view(args.code_block_style)),
        code_block_fence: spec_code_block_fence_from_cli(spec_opt_view(args.code_block_fence)),
        bullet_list_marker: spec_bullet_from_cli(spec_opt_view(args.bullet_list_marker)),
        ul_bullet_spacing: 3,
        ol_number_spacing: 2,
        preformatted_code: args.preformatted_code,
    }
}

/// Builds the conversion options from the command-line style flags.
pub fn parse_converter_options_from_cli_args(args: &CliStyleArgs) -> (r: ConverterOptions)
    ensures
        r == spec_options_from_cli(*args),
{
    let heading_style = match &args.heading_style {
        Some(s) => if str_eq(s.as_str(), "setex") {
            HeadingStyle::Setex
        } else {
            HeadingStyle::Atx
        },
        None => HeadingStyle::Atx,
    };
    let hr_style = match &args.hr_style {
        Some(s) => if str_eq(s.as_str(), "dashes") {
            HrStyle::Dashes
        } else if str_eq(s.as_str(), "underscores") {
            HrStyle::Underscores
        } else {
            HrStyle::Asterisks
        },
        None => HrStyle::Asterisks,
    };
    let br_style = match &args.br_style {
        Some(s) => if str_eq(s.as_str(), "backslash") {
            BrStyle::Backslash
        } else {
            BrStyle::TwoSpaces
        },
        None => BrStyle::TwoSpaces,
    };
    let link_style = match &args.link_style {
        Some(s) => if str_eq(s.as_str(), "referenced") {
            LinkStyle::Referenced
        } else {
            LinkStyle::Inlined
        },
        None => LinkStyle::Inlined,
    };
    let link_reference_style = match &args.link_reference_style {
        Some(s) => if str_eq(s.as_str(), "collapsed") {
            LinkReferenceStyle::Collapsed
        } else if str_eq(s.as_str(), "shortcut") {
            LinkReferenceStyle::Shortcut
        } else {
            LinkReferenceStyle::Full
        },
        None => LinkReferenceStyle::Full,
    };
    let code_block_style = match &args.code_block_style {
        Some(s) => if str_eq(s.as_str(), "indented") {
            CodeBlockStyle::Indented
        } else {
            CodeBlockStyle::Fenced
        },
        None => CodeBlockStyle::Fenced,
    };
    let code_block_fence = match &args.code_block_fence {
        Some(s) => if str_eq(s.as_str(), "tildes") {
            CodeBlockFence::Tildes
        } else {
            CodeBlockFence::Backticks
        },
        None => CodeBlockFence::Backticks,
    };
    let bullet_list_marker = match &args.bullet_list_marker {
        Some(s) => if str_eq(s.as_str(), "dash") {
            BulletListMarker::Dash
        } else {
            BulletListMarker::Asterisk
        },
        None => BulletListMarker::Asterisk,
    };
    ConverterOptions {
        heading_style,
        hr_style,
        br_style,
        link_style,
        link_reference_style,
        code_block_style,
        code_block_fence,
        bullet_list_marker,
        ul_bullet_spacing: 3,
        ol_number_spacing: 2,
        preformatted_code: args.preformatted_code,
    }
}

/// The position of the first comma, or the length when there is none.
pub open spec fn first_comma_index(s: Seq<char>) -> int
    decreases s.len(),
{
    if s.len() == 0 {
        0
    } else if s[0] == ',' {
        0
    } else {
        1 + first_comma_index(s.subrange(1, s.len() as int))
    }
}

proof fn lemma_first_comma_at(s: Seq<char>, k: int)
    requires
        0 <= k <= s.len(),
        forall|j: int| 0 <= j < k ==> s[j] != ',',
        k < s.len() ==> s[k] == ',',
        k == s.len() || s[k] == ',',
    ensures
        first_comma_index(s) == k,
    decreases s.len(),
{
    if s.len() == 0 {
    } else if s[0] == ',' {
        assert(k == 0);
    } else {
        let t = s.subrange(1, s.len() as int);
        assert(forall|j: int| 0 <= j < k - 1 ==> t[j] == s[j + 1] && t[j] != ',');
        if k - 1 < t.len() {
            assert(t[k - 1] == s[k]);
        }
        lemma_first_comma_at(t, k - 1);
    }
}

/// Splitting a text at its commas: the piece before the first comma,
/// then the split of what follows it; a text without commas is one
/// piece. Every comma separates, so empty pieces are kept.
pub open spec fn spec_split_commas(s: Seq<char>) -> Seq<Seq<char>>
    decreases s.len(),
{
    let k0 = first_comma_index(s);
    let k = if 0 <= k0 < s.len() {
        k0
    } else {
        s.len() as int
    };
    if k == s.len() {
        seq![s]
    } else {
        seq![s.subrange(0, k)] + spec_split_commas(s.subrange(k + 1, s.len() as int))
    }
}

/// Splits a comma-separated list into its pieces.
fn split_commas(s: &str) -> (r: Vec<String>)
    ensures
        r.deep_view() == spec_split_commas(s@),
{
    let n = s.unicode_len();
    let mut pieces: Vec<String> = Vec::new();
    let mut start: usize = 0;
    let mut i: usize = 0;
    proof {
        assert(s@.subrange(0, n as int) =~= s@);
        assert(pieces.deep_view() =~= Seq::<Seq<char>>::empty());
        assert(pieces.deep_view() + spec_split_commas(s@) =~= spec_split_commas(s@));
    }
    while i < n
        invariant
            start <= i <= n,
            n == s@.len(),
            forall|j: int| start <= j < i ==> s@[j] != ',',
            spec_split_commas(s@) == pieces.deep_view() + spec_split_commas(
                s@.subrange(start as int, n as int),
            ),
        decreases n - i,
    {
        if s.get_char(i) == ',' {
            let ghost rest = s@.subrange(start as int, n as int);
            let piece = s.substring_char(start, i);
            let ghost prevd = pieces.deep_view();
            pieces.push(piece.to_owned());
            proof {
                lemma_first_comma_at(rest, i - start);
                assert(rest.subrange(0, i - start) =~= s@.subrange(start as int, i as int));
                assert(rest.subrange(i - start + 1, rest.len() as int) =~= s@.subrange(
                    i + 1,
                    n as int,
                ));
                assert(spec_split_commas(rest) == seq![piece@] + spec_split_commas(
                    s@.subrange(i + 1, n as int),
                ));
                assert(pieces.deep_view() =~= prevd.push(piece@));
                assert(pieces.deep_view() + spec_split_commas(s@.subrange(i + 1, n as int)) =~= (
                prevd + spec_split_commas(rest)));
            }
            i += 1;
            start = i;
        } else {
            i += 1;
        }
    }
    let ghost rest = s@.subrange(start as int, n as int);
    let piece = s.substring_char(start, n);
    let ghost prevd = pieces.deep_view();
    pieces.push(piece.to_owned());
    proof {
        lemma_first_comma_at(rest, n - start);
        assert(spec_split_commas(rest) == seq![rest]);
        assert(piece@ == rest);
        assert(pieces.deep_view() =~= prevd.push(piece@));
        assert(pieces.deep_view() =~= prevd + seq![rest]);
    }
    pieces
}

/// Splits the raw ignored-tags flag value at its commas, when present.
pub fn parse_ignored_tags(tags_str: &Option<String>) -> (r: Option<Vec<String>>)
    ensures
        r is Some <==> tags_str is Some,
        r matches Some(v) ==> tags_str matches Some(s) && v.deep_view() == spec_split_commas(s@),
{
    match tags_str {
        None => None,
        Some(s) => Some(split_commas(s.as_str())),
    }
}

/// The merged configuration of one invocation: with a config file its
/// text alone decides; without one, the style flags do.
pub open spec fn spec_merged_options(args: CliStyleArgs, config_text: Option<Seq<char>>) -> Result<
    CliOptionsV,
    Seq<char>,
> {
    match config_text {
        Some(t) => spec_cli_options_from_toml(t),
        None => Ok(
            CliOptionsV {
                converter_options: spec_options_from_cli(args),
                ignored_tags: match args.ignored_tags {
                    Some(s) => Some(spec_split_commas(s@)),
                    None => None,
                },
                flatten_output: args.flatten_output,
                scripting_enabled: true,
            },
        ),
    }
}

/// Merges the command-line flags and the optional config-file text into
/// the configuration of the invocation. A present config file is the
/// exclusive source of conversion options, ignored tags, the flatten
/// flag and the scripting flag; the style flags are then ignored.
pub fn parse_cli_options(args: &CliStyleArgs, config_text: &Option<String>) -> (r: Result<
    CliOptions,
    ParseConfigError,
>)
    ensures
        r matches Ok(c) ==> spec_merged_options(*args, spec_opt_view(*config_text)) matches Ok(cv)
            && c@ == cv,
        r matches Err(e) ==> spec_merged_options(*args, spec_opt_view(*config_text)) matches Err(m)
            && e.message@ == m,
{
    match config_text {
        Some(text) => read_cli_options_from_toml(text.as_str()),
        None => Ok(
            CliOptions {
                converter_options: parse_converter_options_from_cli_args(args),
                ignored_tags: parse_ignored_tags(&args.ignored_tags),
                flatten_output: args.flatten_output,
                scripting_enabled: true,
            },
        ),
    }
}

/// Config-file precedence: with a config file present, the merged
/// configuration is a function of the file text alone — conflicting
/// command-line style flags have no effect on it.
pub proof fn lemma_config_file_precedence(
    args1: CliStyleArgs,
    args2: CliStyleArgs,
    text: Seq<char>,
)
    ensures
        spec_merged_options(args1, Some(text)) == spec_merged_options(args2, Some(text)),
{
}

/// Keys absent from the config file's `[options]` table fall back to
/// the engine defaults, never to a command-line flag's value.
pub proof fn lemma_config_missing_keys_use_defaults(opts: toml::Value)
    requires
        toml_entry(opts, "heading-style"@) is None,
        toml_entry(opts, "hr-style"@) is None,
        toml_entry(opts, "br-style"@) is None,
        toml_entry(opts, "link-style"@) is None,
        toml_entry(opts, "link-reference-style"@) is None,
        toml_entry(opts, "code-block-style"@) is None,
        toml_entry(opts, "code-block-fence"@) is None,
        toml_entry(opts, "bullet-list-marker"@) is None,
        toml_entry(opts, "preformatted-code"@) is None,
        toml_entry(opts, "ul-bullet-spacing"@) is None,
        toml_entry(opts, "ol-number-spacing"@) is None,
    ensures
        spec_converter_options_from_table(opts) == Ok::<ConverterOptions, Seq<char>>(
            spec_default_options(),
        ),
{
}

} // verus!
