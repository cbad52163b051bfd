//! The conversion engine: an opaque, shareable HTML-to-Markdown
//! capability, built once from the merged configuration and consumed
//! read-only by every conversion. What it emits is a function of the
//! engine value and the HTML text alone.
use vstd::prelude::*;
use crate::config::{
    BrStyle, BulletListMarker, CliOptions, CliOptionsV, CodeBlockFence, CodeBlockStyle,
    ConverterOptions, HeadingStyle, HrStyle, LinkReferenceStyle, LinkStyle,
};

verus! {

#[verifier::external_type_specification]
#[verifier::external_body]
pub struct ExEngineOptions(htmd::options::Options);

#[verifier::external_type_specification]
#[verifier::external_body]
pub struct ExHtmlToMarkdown(htmd::HtmlToMarkdown);

/// Relies on htmd's Options record: carries the heading and rule
/// settings over, starting from the engine's defaults.
#[verifier::external_body]
fn engine_options_headings(o: &ConverterOptions) -> (r: htmd::options::Options) {
    let mut e = htmd::options::Options::default();
    e.heading_style = match o.heading_style {
        HeadingStyle::Atx => htmd::options::HeadingStyle::Atx,
        HeadingStyle::Setex => htmd::options::HeadingStyle::Setex,
    };
    e.hr_style = match o.hr_style {
        HrStyle::Dashes => htmd::options::HrStyle::Dashes,
        HrStyle::Asterisks => htmd::options::HrStyle::Asterisks,
        HrStyle::Underscores => htmd::options::HrStyle::Underscores,
    };
    e
}

/// Relies on htmd's Options record: carries the break and link settings
/// over.
#[verifier::external_body]
fn engine_options_links(e: htmd::options::Options, o: &ConverterOptions) -> (r:
    htmd::options::Options) {
    let mut e = e;
    e.br_style = match o.br_style {
        BrStyle::TwoSpaces => htmd::options::BrStyle::TwoSpaces,
        BrStyle::Backslash => htmd::options::BrStyle::Backslash,
    };
    e.link_style = match o.link_style {
        LinkStyle::Inlined => htmd::options::LinkStyle::Inlined,
        LinkStyle::InlinedPreferAutolinks => htmd::options::LinkStyle::InlinedPreferAutolinks,
        LinkStyle::Referenced => htmd::options::LinkStyle::Referenced,
    };
    e
}

/// Relies on htmd's Options record: carries the link-reference and
/// code-block settings over.
#[verifier::external_body]
fn engine_options_refs(e: htmd::options::Options, o: &ConverterOptions) -> (r:
    htmd::options::Options) {
    let mut e = e;
    e.link_reference_style = match o.link_reference_style {
        LinkReferenceStyle::Full => htmd::options::LinkReferenceStyle::Full,
        LinkReferenceStyle::Collapsed => htmd::options::LinkReferenceStyle::Collapsed,
        LinkReferenceStyle::Shortcut => htmd::options::LinkReferenceStyle::Shortcut,
    };
    e.code_block_style = match o.code_block_style {
        CodeBlockStyle::Indented => htmd::options::CodeBlockStyle::Indented,
        CodeBlockStyle::Fenced => htmd::options::CodeBlockStyle::Fenced,
    };
    e
}

/// Relies on htmd's Options record: carries the fence and bullet
/// settings over.
#[verifier::external_body]
fn engine_options_lists(e: htmd::options::Options, o: &ConverterOptions) -> (r:
    htmd::options::Options) {
    let mut e = e;
    e.code_block_fence = match o.code_block_fence {
        CodeBlockFence::Tildes => htmd::options::CodeBlockFence::Tildes,
        CodeBlockFence::Backticks => htmd::options::CodeBlockFence::Backticks,
    };
    e.bullet_list_marker = match o.bullet_list_marker {
        BulletListMarker::Asterisk => htmd::options::BulletListMarker::Asterisk,
        BulletListMarker::Dash => htmd::options::BulletListMarker::Dash,
    };
    e
}

/// The engine that a build from a merged configuration yields: engine
/// construction reads nothing but the configuration, so the engine — and
/// through `engine_markdown` every conversion — is a function of it.
pub uninterp spec fn engine_of(o: CliOptionsV) -> htmd::HtmlToMarkdown;

/// Relies on htmd's Options record and builder: carries every setting of
/// the merged configuration over and builds the engine. The builder's
/// tag-skipping handler refuses an empty tag list, so one is excluded.
#[verifier::external_body]
fn build_engine(o: &CliOptions) -> (r: htmd::HtmlToMarkdown)
    requires
        o.ignored_tags matches Some(t) ==> t@.len() > 0,
    ensures
        r == engine_of(o@),
{
    let mut e = engine_options_headings(&o.converter_options);
    e = engine_options_links(e, &o.converter_options);
    e = engine_options_refs(e, &o.converter_options);
    e = engine_options_lists(e, &o.converter_options);
    e.ul_bullet_spacing = o.converter_options.ul_bullet_spacing;
    e.ol_number_spacing = o.converter_options.ol_number_spacing;
    e.preformatted_code = o.converter_options.preformatted_code;
    let mut b = htmd::HtmlToMarkdown::builder().options(e).scripting_enabled(o.scripting_enabled);
    if let Some(tags) = &o.ignored_tags {
        b = b.skip_tags(tags.iter().map(|t| t.as_str()).collect());
    }
    b.build()
}

/// The merged configuration with an empty ignored-tags list dropped:
/// skipping no tags at all and skipping the empty list are the same.
pub open spec fn spec_normalize_options(o: CliOptionsV) -> CliOptionsV {
    match o.ignored_tags {
        Some(t) => if t.len() == 0 {
            CliOptionsV {
                converter_options: o.converter_options,
                ignored_tags: None,
                flatten_output: o.flatten_output,
                scripting_enabled: o.scripting_enabled,
            }
        } else {
            o
        },
        None => o,
    }
}

/// Builds the engine once from the merged configuration; the engine is
/// then shared read-only across the whole batch, and is a function of
/// the configuration alone. An empty ignored-tags list skips nothing
/// and is normalized away before the build.
pub fn new_converter(options: &CliOptions) -> (r: htmd::HtmlToMarkdown)
    ensures
        r == engine_of(spec_normalize_options(options@)),
{
    let empty_tags = match &options.ignored_tags {
        Some(t) => t.len() == 0,
        None => false,
    };
    if empty_tags {
        let normalized = CliOptions {
            converter_options: options.converter_options,
            ignored_tags: None,
            flatten_output: options.flatten_output,
            scripting_enabled: options.scripting_enabled,
        };
        proof {
            assert(normalized@ == spec_normalize_options(options@));
        }
        build_engine(&normalized)
    } else {
        proof {
            assert(options@ == spec_normalize_options(options@));
        }
        build_engine(options)
    }
}

/// The Markdown that an engine emits for an HTML text: a function of
/// the engine value and the text alone.
pub uninterp spec fn engine_markdown(c: htmd::HtmlToMarkdown, html: Seq<char>) -> Seq<char>;

/// Relies on htmd::HtmlToMarkdown::convert: converts one HTML text to
/// Markdown. The engine's source builds the parse tree and renders it
/// without any failure path, and reads nothing but the engine and the
/// text, so the call returns and its result is deterministic in them.
#[verifier::external_body]
pub fn convert_html(converter: &htmd::HtmlToMarkdown, html: &str) -> (r: String)
    ensures
        r@ == engine_markdown(*converter, html@),
{
    converter.convert(html).expect("Failed to parse html from text")
}

/// Converts one HTML text for the inline flow: an output path that is
/// an existing directory is refused; otherwise the converted Markdown
/// is handed back for the caller to print or write.
pub fn convert_text(
    converter: &htmd::HtmlToMarkdown,
    text: &str,
    output_is_existing_dir: bool,
) -> (r: Result<String, &'static str>)
    ensures
        output_is_existing_dir ==> (r matches Err(m) && m@ == "Output cannot be a directory."@),
        !output_is_existing_dir ==> (r matches Ok(md) && md@ == engine_markdown(
            *converter,
            text@,
        )),
{
    if output_is_existing_dir {
        Err("Output cannot be a directory.")
    } else {
        Ok(convert_html(converter, text))
    }
}

/// Idempotence of conversion: engines built from the same merged
/// configuration emit the same Markdown for the same text, so re-running
/// a batch writes each destination with content identical to the first
/// run's.
pub proof fn lemma_rebuilt_engine_converts_identically(
    c1: htmd::HtmlToMarkdown,
    c2: htmd::HtmlToMarkdown,
    o: CliOptionsV,
    html: Seq<char>,
)
    requires
        c1 == engine_of(spec_normalize_options(o)),
        c2 == engine_of(spec_normalize_options(o)),
    ensures
        engine_markdown(c1, html) == engine_markdown(c2, html),
{
}

} // verus!
