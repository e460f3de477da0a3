//! The persisted configuration record and the option resolver: the
//! strict flag-over-configuration-over-default precedence, and the
//! author-name inference with its optional "Last, First" reformatting.
use crate::cli::FlagOptions;
use crate::defaults::{
    author_placeholder, author_placeholder_str, default_email, default_email_str,
    default_lib_file, default_lib_file_str, default_orcid, default_orcid_str, default_output,
    default_output_str, template_directory_str, NAME_INFERENCE_DEFAULT, NAME_REFORMAT_DEFAULT,
};
use crate::host::{config_dir_path, host_realname};
use crate::templates::{custom_template_path, normalize_template_name, TemplateSource};
use crate::text::in_seq;
use crate::Options;
use vstd::prelude::*;
use vstd::string::*;

verus! {

/// The persisted per-user configuration: every key optional, each one a
/// default for the matching option.
#[derive(Debug)]
pub struct Config {
    pub default_output: Option<String>,
    pub default_template: Option<String>,
    pub name_inference: Option<bool>,
    pub inferred_name_reformat: Option<bool>,
    pub orcid: Option<String>,
    pub email: Option<String>,
    pub default_author: Option<String>,
    pub lib_file: Option<String>,
}

/// The position of the one space of a two-token name: both tokens are
/// nonempty and hold no space themselves.
pub open spec fn two_token_split_at(name: Seq<char>, p: int) -> bool {
    &&& 0 < p < name.len() - 1
    &&& name[p] == ' '
    &&& forall|k: int| 0 <= k < name.len() && k != p ==> name[k] != ' '
}

/// A two-token name "First Last" reformatted as "Last, First"; any other
/// name passes through unchanged.
pub open spec fn reformatted_name(name: Seq<char>) -> Seq<char> {
    if exists|p: int| two_token_split_at(name, p) {
        let p = choose|p: int| two_token_split_at(name, p);
        name.skip(p + 1) + ", "@ + name.take(p)
    } else {
        name
    }
}

/// Reformats a two-token name "First Last" as "Last, First"; any other
/// name passes through unchanged.
pub fn reformat_author_name(name: &str) -> (r: String)
    ensures
        r@ == reformatted_name(name@),
{
    let n = name.unicode_len();
    let mut spaces: usize = 0;
    let mut first: usize = 0;
    let mut second: usize = 0;
    let mut i: usize = 0;
    while i < n
        invariant
            n == name@.len(),
            i <= n,
            (spaces == 0 ==> forall|j: int| 0 <= j < i ==> name@[j] != ' '),
            (spaces == 1 ==> first < i && name@[first as int] == ' ' && forall|j: int|
                0 <= j < i && j != first ==> name@[j] != ' '),
            (spaces >= 2 ==> first < second < i && name@[first as int] == ' '
                && name@[second as int] == ' '),
        decreases n - i,
    {
        if name.get_char(i) == ' ' {
            if spaces == 0 {
                first = i;
            } else if spaces == 1 {
                second = i;
            }
            if spaces < 2 {
                spaces = spaces + 1;
            }
        }
        i = i + 1;
    }
    if spaces == 1 && first > 0 && first < n - 1 {
        proof {
            assert(two_token_split_at(name@, first as int));
            let p = choose|p: int| two_token_split_at(name@, p);
            assert(name@[p] == ' ');
            assert(p == first as int);
        }
        let last_part = name.substring_char(first + 1, n);
        let first_part = name.substring_char(0, first);
        let mut s = String::from_str(last_part);
        s.append(", ");
        s.append(first_part);
        proof {
            assert(name@.subrange(first + 1, n as int) =~= name@.skip(first + 1));
            assert(name@.subrange(0, first as int) =~= name@.take(first as int));
        }
        s
    } else {
        proof {
            assert forall|p: int| !two_token_split_at(name@, p) by {
                if two_token_split_at(name@, p) {
                    assert(name@[p] == ' ');
                    if spaces == 0 {
                    } else if spaces == 1 {
                        assert(p == first as int);
                    } else {
                        assert(first as int == p || name@[first as int] != ' ');
                        assert(second as int == p || name@[second as int] != ' ');
                    }
                }
            }
        }
        String::from_str(name)
    }
}

/// Whether the configuration enables author-name inference; on by default.
pub open spec fn infer_enabled(flag: Option<bool>) -> bool {
    match flag {
        Option::Some(b) => b,
        Option::None => NAME_INFERENCE_DEFAULT,
    }
}

/// Whether the configuration asks for the inferred name to be reformatted;
/// off by default.
pub open spec fn reformat_enabled(flag: Option<bool>) -> bool {
    match flag {
        Option::Some(b) => b,
        Option::None => NAME_REFORMAT_DEFAULT,
    }
}

/// What an inferred host name resolves to, given the reformat toggle.
pub open spec fn inferred_author(rn: Seq<char>, reformat: Option<bool>) -> Seq<char> {
    if reformat_enabled(reformat) {
        reformatted_name(rn)
    } else {
        rn
    }
}

/// Resolves the author: the flag wins, then the configured default; with
/// neither present the host's real name is queried when inference is
/// enabled (reformatted when so configured), and the placeholder stands in
/// whenever no name can be had.
pub fn process_author_name(
    author: Option<String>,
    config_default: Option<String>,
    infer_name: Option<bool>,
    reformat_name: Option<bool>,
) -> (r: String)
    ensures
        (author matches Some(a) ==> r@ == a@),
        (author is None ==> (config_default matches Some(c) ==> r@ == c@)),
        (author is None && config_default is None && !infer_enabled(infer_name) ==> r@
            == author_placeholder()),
        (author is None && config_default is None && infer_enabled(infer_name) ==> (r@
            == author_placeholder() || (exists|rn: Seq<char>|
            r@ == inferred_author(rn, reformat_name)))),
{
    match author {
        Option::Some(a) => a,
        Option::None => match config_default {
            Option::Some(c) => c,
            Option::None => {
                let infer = match infer_name {
                    Option::Some(b) => b,
                    Option::None => NAME_INFERENCE_DEFAULT,
                };
                if infer {
                    match host_realname() {
                        Option::Some(rn) => {
                            let ghost w = rn@;
                            let reformat = match reformat_name {
                                Option::Some(b) => b,
                                Option::None => NAME_REFORMAT_DEFAULT,
                            };
                            if reformat {
                                let s = reformat_author_name(rn.as_str());
                                proof {
                                    assert(s@ == inferred_author(w, reformat_name));
                                }
                                s
                            } else {
                                proof {
                                    assert(rn@ == inferred_author(w, reformat_name));
                                }
                                rn
                            }
                        },
                        Option::None => String::from_str(author_placeholder_str()),
                    }
                } else {
                    String::from_str(author_placeholder_str())
                }
            },
        },
    }
}

/// The view of an optional string.
pub open spec fn opt_view(o: Option<String>) -> Option<Seq<char>> {
    match o {
        Option::Some(s) => Option::Some(s@),
        Option::None => Option::None,
    }
}

/// The three-tier precedence: the flag value wins, then the configured
/// value, then the built-in default.
pub open spec fn first_present(
    flag: Option<Seq<char>>,
    cfg: Option<Seq<char>>,
    default: Seq<char>,
) -> Seq<char> {
    match flag {
        Option::Some(s) => s,
        Option::None => match cfg {
            Option::Some(c) => c,
            Option::None => default,
        },
    }
}

/// Resolves the flag record against a loaded configuration, field by
/// field, with strict flag-over-configuration-over-default precedence.
pub fn apply_config(config: &Config, input_options: FlagOptions) -> (r: Options)
    ensures
        r.output@ == first_present(
            opt_view(input_options.output),
            opt_view(config.default_output),
            default_output(),
        ),
        r.orcid@ == first_present(
            opt_view(input_options.orcid),
            opt_view(config.orcid),
            default_orcid(),
        ),
        r.lang@ == input_options.lang@,
        r.debug == input_options.debug,
        r.email@ == first_present(Option::None, opt_view(config.email), default_email()),
        r.lib_file@ == first_present(
            Option::None,
            opt_view(config.lib_file),
            default_lib_file(),
        ),
        (input_options.template matches Some(t) ==> r.template.same_source(&t)),
        (input_options.template is None && config.default_template is None ==> (
        r.template matches TemplateSource::BuiltinReport)),
        (input_options.template is None ==> (config.default_template matches Some(name) ==> {
            ||| (r.template matches TemplateSource::BuiltinReport)
            ||| (exists|d: Seq<char>|
                (r.template matches TemplateSource::Custom(p) && p@
                    == #[trigger] custom_template_path(d, name@)))
        })),
        (input_options.author matches Some(a) ==> r.author@ == a@),
        (input_options.author is None ==> (config.default_author matches Some(c) ==> r.author@
            == c@)),
        (input_options.author is None && config.default_author is None && !infer_enabled(
            config.name_inference,
        ) ==> r.author@ == author_placeholder()),
        (input_options.author is None && config.default_author is None && infer_enabled(
            config.name_inference,
        ) ==> (r.author@ == author_placeholder() || (exists|rn: Seq<char>|
            r.author@ == inferred_author(rn, config.inferred_name_reformat)))),
{
    let output = match input_options.output {
        Option::Some(o) => o,
        Option::None => match &config.default_output {
            Option::Some(o) => o.clone(),
            Option::None => String::from_str(default_output_str()),
        },
    };
    let template = match input_options.template {
        Option::Some(t) => t,
        Option::None => match &config.default_template {
            Option::Some(name) => match config_dir_path() {
                Option::Some(dir) => {
                    let ghost d = dir@;
                    let mut p = dir;
                    p.append("/");
                    p.append(template_directory_str());
                    p.append("/");
                    let norm = normalize_template_name(name.as_str());
                    p.append(norm.as_str());
                    proof {
                        assert(p@ == custom_template_path(d, name@));
                    }
                    TemplateSource::Custom(p)
                },
                Option::None => TemplateSource::BuiltinReport,
            },
            Option::None => TemplateSource::BuiltinReport,
        },
    };
    let orcid = match input_options.orcid {
        Option::Some(o) => o,
        Option::None => match &config.orcid {
            Option::Some(o) => o.clone(),
            Option::None => String::from_str(default_orcid_str()),
        },
    };
    let author = process_author_name(
        input_options.author,
        clone_opt_string(&config.default_author),
        config.name_inference,
        config.inferred_name_reformat,
    );
    let lib_file = match &config.lib_file {
        Option::Some(l) => l.clone(),
        Option::None => String::from_str(default_lib_file_str()),
    };
    let email = match &config.email {
        Option::Some(e) => e.clone(),
        Option::None => String::from_str(default_email_str()),
    };
    Options {
        output,
        template,
        author,
        orcid,
        lang: input_options.lang,
        debug: input_options.debug,
        lib_file,
        email,
    }
}

/// A copy of an optional string with the same characters.
fn clone_opt_string(o: &Option<String>) -> (r: Option<String>)
    ensures
        opt_view(r) == opt_view(*o),
        (r is Some <==> *o is Some),
        (o matches Some(s) ==> r matches Some(c) && c@ == s@),
{
    match o {
        Option::Some(s) => Some(s.clone()),
        Option::None => None,
    }
}

/// Resolves the flag record with no configuration at all: every field
/// falls through from the flag straight to the built-in default, exactly
/// as an empty configuration would resolve.
pub fn apply_default_config(input_options: FlagOptions) -> (r: Options)
    ensures
        r.output@ == first_present(opt_view(input_options.output), Option::None, default_output()),
        r.orcid@ == first_present(opt_view(input_options.orcid), Option::None, default_orcid()),
        r.lang@ == input_options.lang@,
        r.debug == input_options.debug,
        r.email@ == default_email(),
        r.lib_file@ == default_lib_file(),
        (input_options.template matches Some(t) ==> r.template.same_source(&t)),
        (input_options.template is None ==> (r.template matches TemplateSource::BuiltinReport)),
        (input_options.author matches Some(a) ==> r.author@ == a@),
        (input_options.author is None ==> (r.author@ == author_placeholder() || (exists|
            rn: Seq<char>,
        |
            r.author@ == inferred_author(rn, Option::None)))),
{
    let empty = Config {
        default_output: None,
        default_template: None,
        name_inference: None,
        inferred_name_reformat: None,
        orcid: None,
        email: None,
        default_author: None,
        lib_file: None,
    };
    apply_config(&empty, input_options)
}

/// Reformatting a genuine two-token name "First Last" gives exactly
/// "Last, First".
pub proof fn lemma_reformat_two_token(first: Seq<char>, last: Seq<char>)
    requires
        first.len() > 0,
        last.len() > 0,
        !in_seq(' ', first),
        !in_seq(' ', last),
    ensures
        reformatted_name(first + " "@ + last) == last + ", "@ + first,
{
    reveal_strlit(" ");
    let name = first + " "@ + last;
    let p = first.len() as int;
    assert(two_token_split_at(name, p)) by {
        assert(name[p] == ' ');
        assert forall|k: int| 0 <= k < name.len() && k != p implies name[k] != ' ' by {
            if k < p {
                assert(name[k] == first[k]);
                if first[k] == ' ' {
                    assert(in_seq(' ', first));
                }
            } else {
                assert(name[k] == last[k - p - 1]);
                if last[k - p - 1] == ' ' {
                    assert(in_seq(' ', last));
                }
            }
        }
    }
    let q = choose|q: int| two_token_split_at(name, q);
    assert(name[q] == ' ');
    assert(q == p);
    assert(name.skip(p + 1) =~= last);
    assert(name.take(p) =~= first);
}

/// A name without any space passes through reformatting unchanged.
pub proof fn lemma_reformat_no_space(name: Seq<char>)
    requires
        !in_seq(' ', name),
    ensures
        reformatted_name(name) == name,
{
    if exists|p: int| two_token_split_at(name, p) {
        let p = choose|p: int| two_token_split_at(name, p);
        assert(in_seq(' ', name));
    }
}

/// A name with two or more spaces, so with three or more tokens, passes
/// through reformatting unchanged.
pub proof fn lemma_reformat_many_tokens(name: Seq<char>, k1: int, k2: int)
    requires
        0 <= k1 < k2 < name.len(),
        name[k1] == ' ',
        name[k2] == ' ',
    ensures
        reformatted_name(name) == name,
{
    if exists|p: int| two_token_split_at(name, p) {
        let p = choose|p: int| two_token_split_at(name, p);
        assert(k1 == p || name[k1] != ' ');
        assert(k2 == p || name[k2] != ' ');
    }
}

/// The output name precedence: a flag value always wins over a configured
/// default, which always wins over the built-in default.
pub proof fn lemma_output_precedence(flag: Option<Seq<char>>, cfg: Option<Seq<char>>)
    ensures
        (flag matches Some(o) ==> first_present(flag, cfg, default_output()) == o),
        (flag is None ==> (cfg matches Some(c) ==> first_present(flag, cfg, default_output())
            == c)),
        (flag is None && cfg is None ==> first_present(flag, cfg, default_output())
            == default_output()),
{
}

} // verus!
