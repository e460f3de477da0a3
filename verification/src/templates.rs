//! Template sources, loaded templates, templating errors, and the
//! placeholder substitution engine.
use crate::defaults::{
    article_template, article_template_str, author_token, author_token_str, config_subdir,
    config_subdir_str, email_token, email_token_str, lang_token, lang_token_str, orcid_icon_token,
    orcid_icon_token_str, orcid_id_token, orcid_id_token_str, orcid_image, orcid_image_str,
    report_template, report_template_str, template_directory, template_directory_str,
    template_extension_str,
};
use crate::host::{config_dir_path, path_exists};
use crate::text::{
    brace_token, contains_seq, contains_str, ends_with_str, in_seq, is_suffix,
    lemma_brace_tokens_never_overlap, lemma_contains_concat_right, lemma_contains_trans,
    lemma_disjoint_chars_never_overlap, lemma_in_seq_concat, lemma_replace_absent,
    lemma_replace_chars, lemma_replace_inserts_replacement, lemma_replace_keeps_absent,
    lemma_replace_keeps_occurrence, lemma_replace_removes_pattern, match_at, never_overlap,
    replace_all, replace_all_seq, str_eq,
};
use crate::Options;
use vstd::prelude::*;
use vstd::string::*;

verus! {

/// A loaded template: the raw text together with where it came from.
#[derive(Debug)]
pub enum Template {
    Report(String),
    Article(String),
    Custom(String),
}

impl Clone for Template {
    fn clone(&self) -> (r: Template) {
        match self {
            Template::Report(s) => Template::Report(s.clone()),
            Template::Article(s) => Template::Article(s.clone()),
            Template::Custom(s) => Template::Custom(s.clone()),
        }
    }
}

/// Where template text comes from: one of the two built-in templates, or a
/// user-authored file at the given path.
#[derive(Debug)]
pub enum TemplateSource {
    BuiltinReport,
    BuiltinArticle,
    Custom(String),
}

impl Clone for TemplateSource {
    fn clone(&self) -> (r: TemplateSource)
        ensures
            r.same_source(self),
    {
        match self {
            TemplateSource::BuiltinReport => TemplateSource::BuiltinReport,
            TemplateSource::BuiltinArticle => TemplateSource::BuiltinArticle,
            TemplateSource::Custom(s) => TemplateSource::Custom(s.clone()),
        }
    }
}

impl TemplateSource {
    /// Two sources are the same when they are the same variant and, for
    /// custom sources, name the same path.
    pub open spec fn same_source(&self, other: &TemplateSource) -> bool {
        match (self, other) {
            (TemplateSource::BuiltinReport, TemplateSource::BuiltinReport) => true,
            (TemplateSource::BuiltinArticle, TemplateSource::BuiltinArticle) => true,
            (TemplateSource::Custom(a), TemplateSource::Custom(b)) => a@ == b@,
            _ => false,
        }
    }
}

impl PartialEq for TemplateSource {
    fn eq(&self, other: &TemplateSource) -> (r: bool) {
        match (self, other) {
            (TemplateSource::BuiltinReport, TemplateSource::BuiltinReport) => true,
            (TemplateSource::BuiltinArticle, TemplateSource::BuiltinArticle) => true,
            (TemplateSource::Custom(a), TemplateSource::Custom(b)) => *a == *b,
            _ => false,
        }
    }
}

impl vstd::std_specs::cmp::PartialEqSpecImpl for TemplateSource {
    open spec fn obeys_eq_spec() -> bool {
        true
    }

    open spec fn eq_spec(&self, other: &TemplateSource) -> bool {
        self.same_source(other)
    }
}

/// The errors that can end a run of the templating pipeline.
#[derive(Debug)]
pub enum TemplatingError {
    TemplateNotFound(String),
    NoTemplateDirectory(String),
    CouldNotFindCfgDir,
    CouldNotReadTemplateFile(String),
}

impl PartialEq for TemplatingError {
    fn eq(&self, other: &TemplatingError) -> (r: bool) {
        match (self, other) {
            (TemplatingError::TemplateNotFound(a), TemplatingError::TemplateNotFound(b)) => *a == *b,
            (
                TemplatingError::NoTemplateDirectory(a),
                TemplatingError::NoTemplateDirectory(b),
            ) => *a == *b,
            (TemplatingError::CouldNotFindCfgDir, TemplatingError::CouldNotFindCfgDir) => true,
            (
                TemplatingError::CouldNotReadTemplateFile(a),
                TemplatingError::CouldNotReadTemplateFile(b),
            ) => *a == *b,
            _ => false,
        }
    }
}

impl vstd::std_specs::cmp::PartialEqSpecImpl for TemplatingError {
    open spec fn obeys_eq_spec() -> bool {
        true
    }

    open spec fn eq_spec(&self, other: &TemplatingError) -> bool {
        match (self, other) {
            (TemplatingError::TemplateNotFound(a), TemplatingError::TemplateNotFound(b)) => a@
                == b@,
            (
                TemplatingError::NoTemplateDirectory(a),
                TemplatingError::NoTemplateDirectory(b),
            ) => a@ == b@,
            (TemplatingError::CouldNotFindCfgDir, TemplatingError::CouldNotFindCfgDir) => true,
            (
                TemplatingError::CouldNotReadTemplateFile(a),
                TemplatingError::CouldNotReadTemplateFile(b),
            ) => a@ == b@,
            _ => false,
        }
    }
}

/// A template name with the template file extension appended unless it
/// already carries it.
pub open spec fn normalized_template_name(name: Seq<char>) -> Seq<char> {
    if is_suffix(".typ"@, name) {
        name
    } else {
        name + ".typ"@
    }
}

/// Appends the template file extension unless the name already carries it.
pub fn normalize_template_name(name: &str) -> (r: String)
    ensures
        r@ == normalized_template_name(name@),
{
    if ends_with_str(name, template_extension_str()) {
        String::from_str(name)
    } else {
        let mut s = String::from_str(name);
        s.append(template_extension_str());
        s
    }
}

/// The custom templates directory below the given configuration directory.
pub open spec fn templates_dir_of(cfg_dir: Seq<char>) -> Seq<char> {
    cfg_dir + "/"@ + template_directory()
}

/// The path of the named custom template below the given configuration
/// directory.
pub open spec fn custom_template_path(cfg_dir: Seq<char>, name: Seq<char>) -> Seq<char> {
    templates_dir_of(cfg_dir) + "/"@ + normalized_template_name(name)
}

/// Decides where template text will come from, given the name the user
/// supplied and what the host reported: the configuration directory, if
/// any, and whether the templates directory and the named template file
/// are present on disk. The two built-in names win over everything else,
/// whatever the state of the disk.
pub fn resolve_template_source(
    name: &str,
    cfg_dir: Option<String>,
    dir_present: bool,
    file_present: bool,
) -> (r: Result<TemplateSource, TemplatingError>)
    ensures
        (name@ == "report"@ ==> r == Ok::<TemplateSource, TemplatingError>(
            TemplateSource::BuiltinReport,
        )),
        (name@ != "report"@ && name@ == "article"@ ==> r == Ok::<TemplateSource, TemplatingError>(
            TemplateSource::BuiltinArticle,
        )),
        (name@ != "report"@ && name@ != "article"@ ==> match cfg_dir {
            Option::None => (r matches Err(TemplatingError::CouldNotFindCfgDir)),
            Option::Some(d) => {
                if !dir_present {
                    (r matches Err(TemplatingError::NoTemplateDirectory(p)) && p@
                        == templates_dir_of(d@))
                } else if !file_present {
                    (r matches Err(TemplatingError::TemplateNotFound(n)) && n@ == name@)
                } else {
                    (r matches Ok(TemplateSource::Custom(p)) && p@ == custom_template_path(
                        d@,
                        name@,
                    ))
                }
            },
        }),
{
    if str_eq(name, "report") {
        return Ok(TemplateSource::BuiltinReport);
    }
    if str_eq(name, "article") {
        return Ok(TemplateSource::BuiltinArticle);
    }
    match cfg_dir {
        Option::None => Err(TemplatingError::CouldNotFindCfgDir),
        Option::Some(d) => {
            let mut tdir = d;
            tdir.append("/");
            tdir.append(template_directory_str());
            if !dir_present {
                return Err(TemplatingError::NoTemplateDirectory(tdir));
            }
            if !file_present {
                return Err(TemplatingError::TemplateNotFound(String::from_str(name)));
            }
            let norm = normalize_template_name(name);
            let mut p = tdir;
            p.append("/");
            p.append(norm.as_str());
            Ok(TemplateSource::Custom(p))
        },
    }
}

/// Resolves the user-supplied template name: one of the two built-in names,
/// or the name of a template file in the per-user templates directory, with
/// the template extension appended unless already present. Fails when the
/// configuration directory cannot be found, when the templates directory is
/// absent, or when the named template is not there.
pub fn get_template_source(template_name: &str) -> (r: Result<TemplateSource, TemplatingError>)
    ensures
        (template_name@ == "report"@ ==> r == Ok::<TemplateSource, TemplatingError>(
            TemplateSource::BuiltinReport,
        )),
        (template_name@ != "report"@ && template_name@ == "article"@ ==> r == Ok::<
            TemplateSource,
            TemplatingError,
        >(TemplateSource::BuiltinArticle)),
        (template_name@ != "report"@ && template_name@ != "article"@ ==> {
            ||| (r matches Err(TemplatingError::CouldNotFindCfgDir))
            ||| (exists|d: Seq<char>|
                (r matches Err(TemplatingError::NoTemplateDirectory(p)) && p@
                    == #[trigger] templates_dir_of(d)))
            ||| (r matches Err(TemplatingError::TemplateNotFound(n)) && n@ == template_name@)
            ||| (exists|d: Seq<char>|
                (r matches Ok(TemplateSource::Custom(p)) && p@ == #[trigger] custom_template_path(
                    d,
                    template_name@,
                )))
        }),
{
    if str_eq(template_name, "report") {
        return resolve_template_source(template_name, None, false, false);
    }
    if str_eq(template_name, "article") {
        return resolve_template_source(template_name, None, false, false);
    }
    match config_dir_path() {
        Option::None => {
            let r = resolve_template_source(template_name, None, false, false);
            r
        },
        Option::Some(dir) => {
            let ghost d = dir@;
            let mut tdir = dir.clone();
            tdir.append("/");
            tdir.append(template_directory_str());
            let dir_present = path_exists(tdir.as_str());
            let file_present = if dir_present {
                let norm = normalize_template_name(template_name);
                let mut fpath = tdir;
                fpath.append("/");
                fpath.append(norm.as_str());
                path_exists(fpath.as_str())
            } else {
                false
            };
            let r = resolve_template_source(template_name, Some(dir), dir_present, file_present);
            proof {
                if !dir_present {
                    assert((r matches Err(TemplatingError::NoTemplateDirectory(p)) && p@
                        == templates_dir_of(d)));
                } else if file_present {
                    assert((r matches Ok(TemplateSource::Custom(p)) && p@ == custom_template_path(
                        d,
                        template_name@,
                    )));
                }
            }
            r
        },
    }
}

/// The fragment put in place of the ORCID identifier token when the
/// template declares the icon: the icon followed by a link to the ORCID
/// page.
pub open spec fn icon_orcid_link(orcid: Seq<char>) -> Seq<char> {
    " #orcid_svg https://orcid.org/"@ + orcid
}

/// The fragment put in place of the ORCID identifier token when the
/// template does not declare the icon: a plain text link.
pub open spec fn plain_orcid_link(orcid: Seq<char>) -> Seq<char> {
    " | https://orcid.org/"@ + orcid
}

/// The link to the ORCID page for the given identifier.
pub open spec fn orcid_url(orcid: Seq<char>) -> Seq<char> {
    "https://orcid.org/"@ + orcid
}

/// The ORCID icon asset with its quote characters escaped for embedding.
pub open spec fn escaped_orcid_image() -> Seq<char> {
    replace_all_seq(orcid_image(), "\""@, "\\\""@)
}

/// The declaration put in place of the icon declaration token: it embeds
/// the SVG icon asset at a fixed point size, quotes escaped.
pub open spec fn orcid_icon_declaration() -> Seq<char> {
    "#let orcid_svg = box(image(bytes(\""@ + escaped_orcid_image()
        + "\"), width: 18pt, height: 18pt), height: 18pt)"@
}

/// Builds the icon declaration text.
pub fn orcid_icon_declaration_text() -> (r: String)
    ensures
        r@ == orcid_icon_declaration(),
{
    proof {
        reveal_strlit("\"");
    }
    let escaped = replace_all(orcid_image_str(), "\"", "\\\"");
    let mut s = String::from_str("#let orcid_svg = box(image(bytes(\"");
    s.append(escaped.as_str());
    s.append("\"), width: 18pt, height: 18pt), height: 18pt)");
    s
}

/// The result of the ORCID substitution: with the icon declaration token
/// present, the identifier token becomes an icon link and the declaration
/// token becomes the icon declaration; without it, the identifier token
/// becomes a plain text link.
pub open spec fn substitute_orcid_spec(t: Seq<char>, orcid: Seq<char>) -> Seq<char> {
    if contains_seq(t, orcid_icon_token()) {
        replace_all_seq(
            replace_all_seq(t, orcid_id_token(), icon_orcid_link(orcid)),
            orcid_icon_token(),
            orcid_icon_declaration(),
        )
    } else {
        replace_all_seq(t, orcid_id_token(), plain_orcid_link(orcid))
    }
}

/// Replaces the ORCID tokens in the template, in one of two mutually
/// exclusive modes, depending on whether the template declares the icon.
pub fn substitute_orcid(template: &str, options: &Options) -> (r: String)
    ensures
        r@ == substitute_orcid_spec(template@, options.orcid@),
{
    proof {
        reveal_strlit("{{ORCID_ID}}");
        reveal_strlit("{{ORCID_ICON_DECLARATION}}");
    }
    if contains_str(template, orcid_icon_token_str()) {
        let mut link = String::from_str(" #orcid_svg https://orcid.org/");
        link.append(options.orcid.as_str());
        let with_id = replace_all(template, orcid_id_token_str(), link.as_str());
        let decl = orcid_icon_declaration_text();
        replace_all(with_id.as_str(), orcid_icon_token_str(), decl.as_str())
    } else {
        let mut link = String::from_str(" | https://orcid.org/");
        link.append(options.orcid.as_str());
        replace_all(template, orcid_id_token_str(), link.as_str())
    }
}

/// The result of the full token substitution: author, then ORCID, then
/// language, then email, each a literal global replacement.
pub open spec fn substitute_tokens_spec(
    t: Seq<char>,
    author: Seq<char>,
    orcid: Seq<char>,
    lang: Seq<char>,
    email: Seq<char>,
) -> Seq<char> {
    let t1 = replace_all_seq(t, author_token(), author);
    let t2 = substitute_orcid_spec(t1, orcid);
    let t3 = replace_all_seq(t2, lang_token(), lang);
    replace_all_seq(t3, email_token(), email)
}

/// The library file below the tool's per-user subdirectory.
pub open spec fn lib_path_of(cfg_dir: Seq<char>, lib_file: Seq<char>) -> Seq<char> {
    cfg_dir + "/"@ + config_subdir() + "/"@ + lib_file
}

/// The import directive put before a template body when the library file
/// is present.
pub open spec fn lib_import_line(path: Seq<char>) -> Seq<char> {
    "#import \""@ + path + "\": *\n\n "@
}

/// The path of the library file below the per-user configuration
/// directory, when something exists there on disk.
fn lib_import_path(lib_file: &str) -> (r: Option<String>)
    ensures
        (r matches Some(p) ==> exists|d: Seq<char>| p@ == #[trigger] lib_path_of(d, lib_file@)),
{
    match config_dir_path() {
        Option::None => None,
        Option::Some(dir) => {
            let ghost d = dir@;
            let mut p = dir;
            p.append("/");
            p.append(config_subdir_str());
            p.append("/");
            p.append(lib_file);
            if path_exists(p.as_str()) {
                proof {
                    assert(p@ == lib_path_of(d, lib_file@));
                }
                Some(p)
            } else {
                None
            }
        },
    }
}

/// What substitution may hand back for a template body: the body with all
/// tokens substituted, either as it stands or with the library import
/// directive put before it, when the library file is present on disk.
pub open spec fn substituted_output(s: Seq<char>, body: Seq<char>, options: &Options) -> bool {
    ||| s == substitute_tokens_spec(body, options.author@, options.orcid@, options.lang@, options.email@)
    ||| exists|d: Seq<char>|
        s == substitute_tokens_spec(
            lib_import_line(#[trigger] lib_path_of(d, options.lib_file@)) + body,
            options.author@,
            options.orcid@,
            options.lang@,
            options.email@,
        )
}

/// Substitutes every placeholder token in the template text with the
/// resolved options, after putting the library import directive before the
/// body when the library file is present on disk.
pub fn substitute_template(template: String, options: &Options) -> (r: Result<
    String,
    TemplatingError,
>)
    ensures
        (r matches Ok(s) && substituted_output(s@, template@, options)),
{
    let ghost template_view = template@;
    let ghost mut with_lib: Option<Seq<char>> = None;
    let body: String;
    match lib_import_path(options.lib_file.as_str()) {
        Option::Some(p) => {
            proof {
                with_lib = Some(p@);
            }
            let mut s = String::from_str("#import \"");
            s.append(p.as_str());
            s.append("\": *\n\n ");
            s.append(template.as_str());
            body = s;
        },
        Option::None => {
            body = template;
        },
    }
    assert(match with_lib {
        Option::Some(pv) => body@ == lib_import_line(pv) + template_view && (exists|d: Seq<char>|
            pv == #[trigger] lib_path_of(d, options.lib_file@)),
        Option::None => body@ == template_view,
    });
    proof {
        reveal_strlit("{{AUTHOR_NAME}}");
        reveal_strlit("{{LANG}}");
        reveal_strlit("{{EMAIL}}");
    }
    let t1 = replace_all(body.as_str(), author_token_str(), options.author.as_str());
    let t2 = substitute_orcid(t1.as_str(), options);
    let t3 = replace_all(t2.as_str(), lang_token_str(), options.lang.as_str());
    let t4 = replace_all(t3.as_str(), email_token_str(), options.email.as_str());
    proof {
        assert(t4@ == substitute_tokens_spec(
            body@,
            options.author@,
            options.orcid@,
            options.lang@,
            options.email@,
        ));
    }
    Ok(t4)
}

/// Produces the template text for a resolved source: the embedded constant
/// for a built-in template, or, for a custom template, the text read from
/// its file, which the caller supplies; `None` there means the file could
/// not be read, which is a terminal failure.
pub fn get_template(template_source: TemplateSource, custom_text: Option<String>) -> (r: Result<
    Template,
    TemplatingError,
>)
    ensures
        (template_source matches TemplateSource::BuiltinReport ==> (r matches Ok(t)
            && t matches Template::Report(s) && s@ == report_template())),
        (template_source matches TemplateSource::BuiltinArticle ==> (r matches Ok(t)
            && t matches Template::Article(s) && s@ == article_template())),
        (template_source matches TemplateSource::Custom(path) ==> match custom_text {
            Option::Some(text) => (r matches Ok(t) && t matches Template::Custom(s) && s@
                == text@),
            Option::None => (r matches Err(e) && e matches TemplatingError::CouldNotReadTemplateFile(
                p,
            ) && p@ == path@),
        }),
{
    match template_source {
        TemplateSource::BuiltinReport => Ok(
            Template::Report(String::from_str(report_template_str())),
        ),
        TemplateSource::BuiltinArticle => Ok(
            Template::Article(String::from_str(article_template_str())),
        ),
        TemplateSource::Custom(path) => match custom_text {
            Option::Some(text) => Ok(Template::Custom(text)),
            Option::None => Err(TemplatingError::CouldNotReadTemplateFile(path)),
        },
    }
}

/// Assembles the final document text: produces the template text for the
/// resolved source and substitutes every placeholder token. For a custom
/// template the caller supplies the text read from its file; `None` there
/// means the file could not be read.
pub fn assemble_template(options: &Options, custom_text: Option<String>) -> (r: Result<
    String,
    TemplatingError,
>)
    ensures
        (options.template matches TemplateSource::BuiltinReport ==> (r matches Ok(s)
            && substituted_output(s@, report_template(), options))),
        (options.template matches TemplateSource::BuiltinArticle ==> (r matches Ok(s)
            && substituted_output(s@, article_template(), options))),
        (options.template matches TemplateSource::Custom(p) ==> match custom_text {
            Option::Some(text) => (r matches Ok(s) && substituted_output(s@, text@, options)),
            Option::None => (r matches Err(e) && e matches TemplatingError::CouldNotReadTemplateFile(
                q,
            ) && q@ == p@),
        }),
{
    let source = options.template.clone();
    let template = match get_template(source, custom_text) {
        Ok(t) => t,
        Err(e) => {
            return Err(e);
        },
    };
    let template_string = match template {
        Template::Article(content) => content,
        Template::Report(content) => content,
        Template::Custom(content) => content,
    };
    substitute_template(template_string, options)
}

/// The characters the icon declaration token is made of.
pub open spec fn icon_token_char(c: char) -> bool {
    c == '{' || c == '}' || c == 'O' || c == 'R' || c == 'C' || c == 'I' || c == 'D' || c == '_'
        || c == 'E' || c == 'L' || c == 'A' || c == 'T' || c == 'N'
}

/// A well-formed ORCID identifier text: digit groups, dashes, and the
/// checksum letter.
pub open spec fn orcid_ok(orcid: Seq<char>) -> bool {
    forall|k: int|
        0 <= k < orcid.len() ==> ('0' <= #[trigger] orcid[k] <= '9' || orcid[k] == '-' || orcid[k]
            == 'X')
}

/// The concrete shape of the two ORCID tokens, the link fragments and the
/// icon declaration, as far as the substitution laws lean on it.
proof fn lemma_substitution_literal_facts()
    ensures
        brace_token(orcid_id_token()),
        brace_token(orcid_icon_token()),
        orcid_id_token().len() == 12,
        orcid_icon_token().len() == 26,
        !in_seq(' ', orcid_id_token()),
        !in_seq('#', orcid_id_token()),
        !in_seq('#', orcid_icon_token()),
        forall|k: int|
            0 <= k < 26 ==> icon_token_char(#[trigger] orcid_icon_token()[k]),
        !in_seq('{', orcid_icon_declaration()),
        orcid_icon_declaration().len() > 0,
        orcid_icon_declaration()[0] == '#',
        " #orcid_svg https://orcid.org/"@.len() == 30,
        " #orcid_svg https://orcid.org/"@[0] == ' ',
        " | https://orcid.org/"@.len() == 21,
        " | https://orcid.org/"@[0] == ' ',
        forall|k: int| 0 <= k < 30 ==> #[trigger] " #orcid_svg https://orcid.org/"@[k] != '{',
        forall|k: int| 0 <= k < 21 ==> #[trigger] " | https://orcid.org/"@[k] != '{',
        " #orcid_svg https://orcid.org/"@ == " #orcid_svg "@ + "https://orcid.org/"@,
        "https://orcid.org/"@.len() == 18,
        forall|k: int|
            0 <= k < 18 ==> !icon_token_char(#[trigger] "https://orcid.org/"@[k]),
{
    reveal_strlit("{{ORCID_ID}}");
    reveal_strlit("{{ORCID_ICON_DECLARATION}}");
    reveal_strlit(" #orcid_svg https://orcid.org/");
    reveal_strlit(" | https://orcid.org/");
    reveal_strlit(" #orcid_svg ");
    reveal_strlit("https://orcid.org/");
    reveal_strlit("\"");
    reveal_strlit("\\\"");
    reveal_strlit("#let orcid_svg = box(image(bytes(\"");
    reveal_strlit("\"), width: 18pt, height: 18pt), height: 18pt)");
    reveal_strlit(
        "<svg xmlns=\"http://www.w3.org/2000/svg\" viewBox=\"0 0 24 24\"><circle cx=\"12\" cy=\"12\" r=\"11\" fill=\"#A6CE39\"/></svg>",
    );
    let id = orcid_id_token();
    let icon = orcid_icon_token();
    assert(!in_seq(' ', id)) by {
        assert(forall|k: int| 0 <= k < 12 ==> #[trigger] id[k] != ' ');
    }
    assert(!in_seq('#', id)) by {
        assert(forall|k: int| 0 <= k < 12 ==> #[trigger] id[k] != '#');
    }
    assert(!in_seq('#', icon)) by {
        assert(forall|k: int| 0 <= k < 26 ==> #[trigger] icon[k] != '#');
    }
    assert(" #orcid_svg https://orcid.org/"@ =~= " #orcid_svg "@ + "https://orcid.org/"@);
    let frame_open = "#let orcid_svg = box(image(bytes(\""@;
    let frame_close = "\"), width: 18pt, height: 18pt), height: 18pt)"@;
    let svg = orcid_image();
    let escaped = escaped_orcid_image();
    assert(!in_seq('{', escaped)) by {
        if in_seq('{', escaped) {
            lemma_replace_chars(svg, "\""@, "\\\""@, '{');
            if in_seq('{', svg) {
                let k = choose|k: int| 0 <= k < svg.len() && svg[k] == '{';
                assert(forall|j: int| 0 <= j < svg.len() ==> #[trigger] svg[j] != '{');
            }
            if in_seq('{', "\\\""@) {
                let k = choose|k: int| 0 <= k < "\\\""@.len() && "\\\""@[k] == '{';
            }
        }
    }
    let decl = orcid_icon_declaration();
    assert(decl == (frame_open + escaped) + frame_close);
    assert(!in_seq('{', decl)) by {
        lemma_in_seq_concat(frame_open + escaped, frame_close, '{');
        lemma_in_seq_concat(frame_open, escaped, '{');
        if in_seq('{', frame_open) {
            let k = choose|k: int| 0 <= k < frame_open.len() && frame_open[k] == '{';
            assert(forall|j: int| 0 <= j < frame_open.len() ==> #[trigger] frame_open[j] != '{');
        }
        if in_seq('{', frame_close) {
            let k = choose|k: int| 0 <= k < frame_close.len() && frame_close[k] == '{';
            assert(forall|j: int| 0 <= j < frame_close.len() ==> #[trigger] frame_close[j] != '{');
        }
    }
    assert(decl[0] == frame_open[0]);
}

/// The link fragment put in place of the identifier token in icon mode:
/// brace-free for a well-formed identifier, it begins with a space and
/// carries the link to the ORCID page.
proof fn lemma_icon_link_facts(orcid: Seq<char>)
    requires
        orcid_ok(orcid),
    ensures
        !in_seq('{', icon_orcid_link(orcid)),
        icon_orcid_link(orcid)[0] == ' ',
        icon_orcid_link(orcid).len() > 0,
        contains_seq(icon_orcid_link(orcid), orcid_url(orcid)),
{
    lemma_substitution_literal_facts();
    let link = icon_orcid_link(orcid);
    let url = orcid_url(orcid);
    assert(!in_seq('{', link)) by {
        lemma_in_seq_concat(" #orcid_svg https://orcid.org/"@, orcid, '{');
        if in_seq('{', orcid) {
            let k = choose|k: int| 0 <= k < orcid.len() && orcid[k] == '{';
        }
        if in_seq('{', " #orcid_svg https://orcid.org/"@) {
            let k = choose|k: int|
                0 <= k < " #orcid_svg https://orcid.org/"@.len()
                    && " #orcid_svg https://orcid.org/"@[k] == '{';
        }
    }
    assert(contains_seq(link, url)) by {
        assert(link =~= " #orcid_svg "@ + url);
        assert(url.subrange(0, url.len() as int) =~= url);
        assert(match_at(url, url, 0));
        lemma_contains_concat_right(" #orcid_svg "@, url, url);
    }
}

/// An icon declaration token occurrence can never share a position with an
/// occurrence of the link to the ORCID page: the two share no character.
proof fn lemma_icon_url_no_overlap(orcid: Seq<char>)
    requires
        orcid_ok(orcid),
    ensures
        never_overlap(orcid_icon_token(), orcid_url(orcid)),
        orcid_url(orcid).len() > 0,
{
    lemma_substitution_literal_facts();
    let icon = orcid_icon_token();
    let url = orcid_url(orcid);
    assert forall|c: char| in_seq(c, icon) implies !in_seq(c, url) by {
        let k = choose|k: int| 0 <= k < icon.len() && icon[k] == c;
        assert(icon_token_char(c));
        if in_seq(c, url) {
            lemma_in_seq_concat("https://orcid.org/"@, orcid, c);
            if in_seq(c, "https://orcid.org/"@) {
                let j = choose|j: int|
                    0 <= j < "https://orcid.org/"@.len() && "https://orcid.org/"@[j] == c;
            }
            if in_seq(c, orcid) {
                let j = choose|j: int| 0 <= j < orcid.len() && orcid[j] == c;
            }
        }
    }
    lemma_disjoint_chars_never_overlap(icon, url);
}

/// After the identifier token is replaced by the icon link: the identifier
/// token is gone, the icon declaration token still stands, and the link to
/// the ORCID page is in the text.
proof fn lemma_orcid_stage_one(t: Seq<char>, orcid: Seq<char>)
    requires
        contains_seq(t, orcid_icon_token()),
        contains_seq(t, orcid_id_token()),
        orcid_ok(orcid),
    ensures
        !contains_seq(
            replace_all_seq(t, orcid_id_token(), icon_orcid_link(orcid)),
            orcid_id_token(),
        ),
        contains_seq(
            replace_all_seq(t, orcid_id_token(), icon_orcid_link(orcid)),
            orcid_icon_token(),
        ),
        contains_seq(
            replace_all_seq(t, orcid_id_token(), icon_orcid_link(orcid)),
            orcid_url(orcid),
        ),
{
    lemma_substitution_literal_facts();
    lemma_icon_link_facts(orcid);
    let id = orcid_id_token();
    let icon = orcid_icon_token();
    let link = icon_orcid_link(orcid);
    let url = orcid_url(orcid);
    let x = replace_all_seq(t, id, link);
    lemma_replace_removes_pattern(t, id, link);
    lemma_brace_tokens_never_overlap(id, icon);
    lemma_replace_keeps_occurrence(t, id, link, icon);
    lemma_replace_inserts_replacement(t, id, link);
    lemma_contains_trans(x, link, url);
}

/// After the icon declaration token is replaced by the icon declaration:
/// the declaration and the link are in the text, and neither ORCID token
/// remains.
proof fn lemma_orcid_stage_two(x: Seq<char>, orcid: Seq<char>)
    requires
        !contains_seq(x, orcid_id_token()),
        contains_seq(x, orcid_icon_token()),
        contains_seq(x, orcid_url(orcid)),
        orcid_ok(orcid),
    ensures
        contains_seq(
            replace_all_seq(x, orcid_icon_token(), orcid_icon_declaration()),
            orcid_url(orcid),
        ),
        contains_seq(
            replace_all_seq(x, orcid_icon_token(), orcid_icon_declaration()),
            orcid_icon_declaration(),
        ),
        !contains_seq(
            replace_all_seq(x, orcid_icon_token(), orcid_icon_declaration()),
            orcid_id_token(),
        ),
        !contains_seq(
            replace_all_seq(x, orcid_icon_token(), orcid_icon_declaration()),
            orcid_icon_token(),
        ),
{
    lemma_substitution_literal_facts();
    lemma_icon_url_no_overlap(orcid);
    let id = orcid_id_token();
    let icon = orcid_icon_token();
    let decl = orcid_icon_declaration();
    let url = orcid_url(orcid);
    lemma_replace_removes_pattern(x, icon, decl);
    lemma_replace_keeps_absent(x, icon, decl, id);
    lemma_replace_inserts_replacement(x, icon, decl);
    lemma_replace_keeps_occurrence(x, icon, decl, url);
}

/// With the icon declaration token present, substitution renders the icon
/// declaration and a link to the ORCID page, and leaves neither ORCID
/// token behind.
pub proof fn lemma_orcid_substitution_with_icon(t: Seq<char>, orcid: Seq<char>)
    requires
        contains_seq(t, orcid_icon_token()),
        contains_seq(t, orcid_id_token()),
        orcid_ok(orcid),
    ensures
        contains_seq(substitute_orcid_spec(t, orcid), orcid_url(orcid)),
        contains_seq(substitute_orcid_spec(t, orcid), orcid_icon_declaration()),
        !contains_seq(substitute_orcid_spec(t, orcid), orcid_id_token()),
        !contains_seq(substitute_orcid_spec(t, orcid), orcid_icon_token()),
{
    let x = replace_all_seq(t, orcid_id_token(), icon_orcid_link(orcid));
    lemma_orcid_stage_one(t, orcid);
    lemma_orcid_stage_two(x, orcid);
    assert(substitute_orcid_spec(t, orcid) == replace_all_seq(
        x,
        orcid_icon_token(),
        orcid_icon_declaration(),
    ));
}

/// Without the icon declaration token, the ORCID substitution is exactly
/// the replacement of the identifier token by the plain text link.
pub proof fn lemma_orcid_substitution_plain(t: Seq<char>, orcid: Seq<char>)
    requires
        !contains_seq(t, orcid_icon_token()),
    ensures
        substitute_orcid_spec(t, orcid) == replace_all_seq(
            t,
            orcid_id_token(),
            plain_orcid_link(orcid),
        ),
{
}

/// Substituting a template that holds none of the placeholder tokens gives
/// the template back unchanged.
pub proof fn lemma_substitution_without_tokens(
    t: Seq<char>,
    author: Seq<char>,
    orcid: Seq<char>,
    lang: Seq<char>,
    email: Seq<char>,
)
    requires
        !contains_seq(t, author_token()),
        !contains_seq(t, orcid_id_token()),
        !contains_seq(t, orcid_icon_token()),
        !contains_seq(t, lang_token()),
        !contains_seq(t, email_token()),
    ensures
        substitute_tokens_spec(t, author, orcid, lang, email) == t,
{
    reveal_strlit("{{AUTHOR_NAME}}");
    reveal_strlit("{{ORCID_ID}}");
    reveal_strlit("{{ORCID_ICON_DECLARATION}}");
    reveal_strlit("{{LANG}}");
    reveal_strlit("{{EMAIL}}");
    lemma_replace_absent(t, author_token(), author);
    lemma_replace_absent(t, orcid_id_token(), plain_orcid_link(orcid));
    lemma_replace_absent(t, lang_token(), lang);
    lemma_replace_absent(t, email_token(), email);
}

/// Name normalization appends the extension exactly when it is missing, so
/// a name that already carries it is never given a second one, and the
/// normalized name always ends in the extension.
pub proof fn lemma_template_name_normalization(name: Seq<char>)
    ensures
        (is_suffix(".typ"@, name) ==> normalized_template_name(name) == name),
        (!is_suffix(".typ"@, name) ==> normalized_template_name(name) == name + ".typ"@),
        is_suffix(".typ"@, normalized_template_name(name)),
{
    reveal_strlit(".typ");
    if !is_suffix(".typ"@, name) {
        let ext = name + ".typ"@;
        assert(ext.subrange(name.len() as int, ext.len() as int) =~= ".typ"@);
    }
}

} // verus!
