//! The built-in defaults: placeholder values, the placeholder token
//! vocabulary, the built-in template texts and the ORCID icon asset.
use vstd::prelude::*;

verus! {

/// Name inference from the host account is on unless the configuration
/// turns it off.
pub const NAME_INFERENCE_DEFAULT: bool = true;

/// An inferred name is passed through unchanged unless the configuration
/// asks for the "Last, First" reformatting.
pub const NAME_REFORMAT_DEFAULT: bool = false;

/// The output name used when neither flag nor configuration names one.
pub open spec fn default_output() -> Seq<char> {
    "output"@
}

pub fn default_output_str() -> (r: &'static str)
    ensures
        r@ == default_output(),
{
    "output"
}

/// The language code used when the flag is absent.
pub open spec fn default_lang() -> Seq<char> {
    "en"@
}

pub fn default_lang_str() -> (r: &'static str)
    ensures
        r@ == default_lang(),
{
    "en"
}

/// The author string used when no author can be resolved.
pub open spec fn author_placeholder() -> Seq<char> {
    "Unknown Author"@
}

pub fn author_placeholder_str() -> (r: &'static str)
    ensures
        r@ == author_placeholder(),
{
    "Unknown Author"
}

/// The email used when the configuration names none.
pub open spec fn default_email() -> Seq<char> {
    "unknown@example.com"@
}

pub fn default_email_str() -> (r: &'static str)
    ensures
        r@ == default_email(),
{
    "unknown@example.com"
}

/// The all-zero placeholder ORCID identifier.
pub open spec fn default_orcid() -> Seq<char> {
    "0000-0000-0000-0000"@
}

pub fn default_orcid_str() -> (r: &'static str)
    ensures
        r@ == default_orcid(),
{
    "0000-0000-0000-0000"
}

/// The library file name used when the configuration names none.
pub open spec fn default_lib_file() -> Seq<char> {
    "lib.typ"@
}

pub fn default_lib_file_str() -> (r: &'static str)
    ensures
        r@ == default_lib_file(),
{
    "lib.typ"
}

/// The per-user subdirectory, below the host configuration directory, that
/// holds this tool's files.
pub open spec fn config_subdir() -> Seq<char> {
    "typstgen"@
}

pub fn config_subdir_str() -> (r: &'static str)
    ensures
        r@ == config_subdir(),
{
    "typstgen"
}

/// The subdirectory, below the host configuration directory, that holds
/// custom templates.
pub open spec fn template_directory() -> Seq<char> {
    "typstgen/templates"@
}

pub fn template_directory_str() -> (r: &'static str)
    ensures
        r@ == template_directory(),
{
    "typstgen/templates"
}

/// The template file extension.
pub open spec fn template_extension() -> Seq<char> {
    ".typ"@
}

pub fn template_extension_str() -> (r: &'static str)
    ensures
        r@ == template_extension(),
{
    ".typ"
}

/// The author name placeholder token.
pub open spec fn author_token() -> Seq<char> {
    "{{AUTHOR_NAME}}"@
}

pub fn author_token_str() -> (r: &'static str)
    ensures
        r@ == author_token(),
{
    "{{AUTHOR_NAME}}"
}

/// The ORCID identifier placeholder token.
pub open spec fn orcid_id_token() -> Seq<char> {
    "{{ORCID_ID}}"@
}

pub fn orcid_id_token_str() -> (r: &'static str)
    ensures
        r@ == orcid_id_token(),
{
    "{{ORCID_ID}}"
}

/// The ORCID icon declaration placeholder token.
pub open spec fn orcid_icon_token() -> Seq<char> {
    "{{ORCID_ICON_DECLARATION}}"@
}

pub fn orcid_icon_token_str() -> (r: &'static str)
    ensures
        r@ == orcid_icon_token(),
{
    "{{ORCID_ICON_DECLARATION}}"
}

/// The language placeholder token.
pub open spec fn lang_token() -> Seq<char> {
    "{{LANG}}"@
}

pub fn lang_token_str() -> (r: &'static str)
    ensures
        r@ == lang_token(),
{
    "{{LANG}}"
}

/// The email placeholder token.
pub open spec fn email_token() -> Seq<char> {
    "{{EMAIL}}"@
}

pub fn email_token_str() -> (r: &'static str)
    ensures
        r@ == email_token(),
{
    "{{EMAIL}}"
}

/// The ORCID icon asset: a small SVG image, embedded as text. It holds no
/// brace characters, so embedding it cannot introduce a placeholder token.
pub open spec fn orcid_image() -> Seq<char> {
    "<svg xmlns=\"http://www.w3.org/2000/svg\" viewBox=\"0 0 24 24\"><circle cx=\"12\" cy=\"12\" r=\"11\" fill=\"#A6CE39\"/></svg>"@
}

pub fn orcid_image_str() -> (r: &'static str)
    ensures
        r@ == orcid_image(),
{
    "<svg xmlns=\"http://www.w3.org/2000/svg\" viewBox=\"0 0 24 24\"><circle cx=\"12\" cy=\"12\" r=\"11\" fill=\"#A6CE39\"/></svg>"
}

/// The built-in report template.
pub open spec fn report_template() -> Seq<char> {
    "#set document(author: \"{{AUTHOR_NAME}}\")\n#set text(lang: \"{{LANG}}\")\n\n{{ORCID_ICON_DECLARATION}}\n\n#align(center)[\n  #text(size: 17pt)[*Report*]\n\n  {{AUTHOR_NAME}}\n\n  {{EMAIL}}{{ORCID_ID}}\n]\n\n= Overview\n"@
}

pub fn report_template_str() -> (r: &'static str)
    ensures
        r@ == report_template(),
{
    "#set document(author: \"{{AUTHOR_NAME}}\")\n#set text(lang: \"{{LANG}}\")\n\n{{ORCID_ICON_DECLARATION}}\n\n#align(center)[\n  #text(size: 17pt)[*Report*]\n\n  {{AUTHOR_NAME}}\n\n  {{EMAIL}}{{ORCID_ID}}\n]\n\n= Overview\n"
}

/// The built-in article template.
pub open spec fn article_template() -> Seq<char> {
    "#set document(author: \"{{AUTHOR_NAME}}\")\n#set text(lang: \"{{LANG}}\")\n#set page(columns: 2)\n\n#align(center)[\n  #text(size: 17pt)[*Article*]\n\n  {{AUTHOR_NAME}}\n\n  {{EMAIL}}{{ORCID_ID}}\n]\n\n= Abstract\n"@
}

pub fn article_template_str() -> (r: &'static str)
    ensures
        r@ == article_template(),
{
    "#set document(author: \"{{AUTHOR_NAME}}\")\n#set text(lang: \"{{LANG}}\")\n#set page(columns: 2)\n\n#align(center)[\n  #text(size: 17pt)[*Article*]\n\n  {{AUTHOR_NAME}}\n\n  {{EMAIL}}{{ORCID_ID}}\n]\n\n= Abstract\n"
}

} // verus!
