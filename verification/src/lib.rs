//! Generates a document source file for a typesetting tool from a template,
//! filling in placeholders (author name, ORCID identifier, language code,
//! email) and optionally pulling in a user-maintained library file.
//!
//! Operating parameters are resolved from three layered sources with strict
//! precedence: command-line flags, then a persisted configuration file, then
//! built-in defaults.
use vstd::prelude::*;

pub mod cli;
pub mod config;
pub mod defaults;
pub mod host;
pub mod templates;
pub mod text;

use crate::templates::TemplateSource;

verus! {

/// The fully resolved options for one run: every field holds a concrete
/// value, all "not provided" cases already replaced by defaults.
#[derive(Debug)]
pub struct Options {
    pub output: String,
    pub template: TemplateSource,
    pub author: String,
    pub orcid: String,
    pub lang: String,
    pub debug: bool,
    pub lib_file: String,
    pub email: String,
}

impl PartialEq for Options {
    fn eq(&self, other: &Options) -> (r: bool) {
        self.output == other.output && self.template == other.template
            && self.author == other.author && self.orcid == other.orcid
            && self.lang == other.lang && self.debug == other.debug
            && self.lib_file == other.lib_file && self.email == other.email
    }
}

impl vstd::std_specs::cmp::PartialEqSpecImpl for Options {
    open spec fn obeys_eq_spec() -> bool {
        true
    }

    open spec fn eq_spec(&self, other: &Options) -> bool {
        self.output@ == other.output@ && self.template.same_source(&other.template)
            && self.author@ == other.author@ && self.orcid@ == other.orcid@
            && self.lang@ == other.lang@ && self.debug == other.debug
            && self.lib_file@ == other.lib_file@ && self.email@ == other.email@
    }
}

} // verus!
