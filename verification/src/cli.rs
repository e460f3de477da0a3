//! The command-line side of the pipeline: the raw arguments, the
//! independently-optional flag record, and their resolution into template
//! sources.
use crate::templates::{
    custom_template_path, get_template_source, templates_dir_of, TemplateSource, TemplatingError,
};
use crate::text::{trim_spec, trim_str};
use vstd::prelude::*;

verus! {

/// The errors that can occur while the command line is handled.
#[derive(Debug)]
pub enum CliError {
    TemplateError(TemplatingError),
}

impl From<TemplatingError> for CliError {
    fn from(error: TemplatingError) -> (r: CliError) {
        CliError::TemplateError(error)
    }
}

impl vstd::std_specs::convert::FromSpecImpl<TemplatingError> for CliError {
    open spec fn obeys_from_spec() -> bool {
        true
    }

    open spec fn from_spec(error: TemplatingError) -> CliError {
        CliError::TemplateError(error)
    }
}

/// The raw command-line arguments, as the argument parser hands them over:
/// each optional field is present or absent, never resolved to a default.
#[derive(Debug)]
pub struct Args {
    pub output: Option<String>,
    pub template: Option<String>,
    pub author: Option<String>,
    pub orcid: Option<String>,
    pub lang: String,
    pub debug: bool,
}

/// The command-line flags after template-name resolution: still
/// present-or-absent per field, with the template name replaced by a
/// resolved template source.
#[derive(Debug)]
pub struct FlagOptions {
    pub output: Option<String>,
    pub template: Option<TemplateSource>,
    pub author: Option<String>,
    pub orcid: Option<String>,
    pub lang: String,
    pub debug: bool,
}

/// What resolving a template name on the command line may produce: the
/// built-in source for the two built-in names, else a custom template path
/// below some configuration directory.
pub open spec fn resolved_flag_template(name: Seq<char>, src: &TemplateSource) -> bool {
    if name == "report"@ {
        src matches TemplateSource::BuiltinReport
    } else if name == "article"@ {
        src matches TemplateSource::BuiltinArticle
    } else {
        exists|d: Seq<char>|
            (src matches TemplateSource::Custom(p) && p@ == #[trigger] custom_template_path(
                d,
                name,
            ))
    }
}

/// The errors that resolving a custom template name may produce.
pub open spec fn template_resolution_error(name: Seq<char>, e: &TemplatingError) -> bool {
    ||| (e matches TemplatingError::CouldNotFindCfgDir)
    ||| exists|d: Seq<char>|
        (e matches TemplatingError::NoTemplateDirectory(p) && p@ == #[trigger] templates_dir_of(d))
    ||| (e matches TemplatingError::TemplateNotFound(n) && n@ == name)
}

/// Resolves the raw arguments into the flag record: the template name, if
/// given, is resolved to a template source, and the language code is
/// trimmed; everything else passes through unchanged.
pub fn parse_cli_args(args: Args) -> (r: Result<FlagOptions, CliError>)
    ensures
        (r matches Ok(f) ==> {
            &&& f.output == args.output
            &&& f.author == args.author
            &&& f.orcid == args.orcid
            &&& f.debug == args.debug
            &&& f.lang@ == trim_spec(args.lang@)
            &&& match args.template {
                Option::Some(name) => (f.template matches Some(src) && resolved_flag_template(
                    name@,
                    &src,
                )),
                Option::None => f.template is None,
            }
        }),
        (r matches Err(e) ==> {
            &&& args.template matches Some(name)
            &&& name@ != "report"@
            &&& name@ != "article"@
            &&& (e matches CliError::TemplateError(te) && template_resolution_error(name@, &te))
        }),
{
    let template: Option<TemplateSource> = match args.template {
        Option::Some(name) => match get_template_source(name.as_str()) {
            Ok(src) => Some(src),
            Err(e) => {
                return Err(CliError::from(e));
            },
        },
        Option::None => None,
    };
    Ok(
        FlagOptions {
            output: args.output,
            template: template,
            author: args.author,
            orcid: args.orcid,
            lang: trim_str(args.lang.as_str()),
            debug: args.debug,
        },
    )
}

} // verus!
