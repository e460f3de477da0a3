use typstgen::cli::{parse_cli_args, Args};
use typstgen::config::{apply_config, apply_default_config, process_author_name, reformat_author_name, Config};
use typstgen::templates::{
    assemble_template, get_template, normalize_template_name, orcid_icon_declaration_text,
    resolve_template_source, substitute_orcid, substitute_template, Template, TemplateSource,
    TemplatingError,
};
use typstgen::text::{contains_str, ends_with_str, replace_all, str_eq, trim_str};
use typstgen::Options;

fn base_options() -> Options {
    Options {
        output: String::from("output"),
        template: TemplateSource::BuiltinReport,
        author: String::from("John Doe"),
        email: String::from("john.doe@example.com"),
        lang: String::from("en"),
        debug: false,
        lib_file: String::from("no_such_library_file_for_these_tests.typ"),
        orcid: String::from("0000-0002-1825-0097"),
    }
}

fn empty_config() -> Config {
    Config {
        default_output: None,
        default_template: None,
        name_inference: None,
        inferred_name_reformat: None,
        orcid: None,
        email: None,
        default_author: None,
        lib_file: None,
    }
}

#[test]
fn replace_all_replaces_every_occurrence() {
    assert_eq!(replace_all("abcabca", "a", "xy"), String::from("xybcxybcxy"));
    assert_eq!(replace_all("aaaa", "aa", "b"), String::from("bb"));
    assert_eq!(replace_all("hello", "ll", "LL"), String::from("heLLo"));
    assert_eq!(replace_all("none here", "xyz", "q"), String::from("none here"));
    assert_eq!(replace_all("", "xyz", "q"), String::from(""));
}

#[test]
fn replace_all_does_not_rescan_replacement() {
    assert_eq!(replace_all("abb", "ab", "a"), String::from("ab"));
}

#[test]
fn contains_and_ends_with_and_eq() {
    assert!(contains_str("one two three", "two"));
    assert!(!contains_str("one two three", "four"));
    assert!(contains_str("anything", ""));
    assert!(ends_with_str("report.typ", ".typ"));
    assert!(!ends_with_str("report.txt", ".typ"));
    assert!(!ends_with_str("yp", ".typ"));
    assert!(str_eq("same", "same"));
    assert!(!str_eq("same", "sane"));
}

#[test]
fn trim_removes_surrounding_whitespace() {
    assert_eq!(trim_str("  en "), String::from("en"));
    assert_eq!(trim_str("\t de\n"), String::from("de"));
    assert_eq!(trim_str("fr"), String::from("fr"));
    assert_eq!(trim_str("   "), String::from(""));
    assert_eq!(trim_str("a b"), String::from("a b"));
}

#[test]
fn reformat_two_token_name() {
    assert_eq!(reformat_author_name("John Doe"), String::from("Doe, John"));
    assert_eq!(reformat_author_name("Ada Lovelace"), String::from("Lovelace, Ada"));
}

#[test]
fn reformat_leaves_other_token_counts_alone() {
    assert_eq!(reformat_author_name("Plato"), String::from("Plato"));
    assert_eq!(
        reformat_author_name("John von Doe"),
        String::from("John von Doe")
    );
    assert_eq!(reformat_author_name(""), String::from(""));
    assert_eq!(reformat_author_name(" John"), String::from(" John"));
    assert_eq!(reformat_author_name("John "), String::from("John "));
}

#[test]
fn author_flag_wins_over_config_default() {
    let name = process_author_name(
        Some(String::from("Flag Name")),
        Some(String::from("Config Name")),
        None,
        None,
    );
    assert_eq!(name, String::from("Flag Name"));
}

#[test]
fn author_config_default_wins_over_inference() {
    let name = process_author_name(None, Some(String::from("Config Name")), Some(true), None);
    assert_eq!(name, String::from("Config Name"));
}

#[test]
fn orcid_substitution_with_icon_token() {
    let template = String::from("{{ORCID_ICON_DECLARATION}}\nAuthor {{ORCID_ID}}");
    let options = base_options();
    let result = substitute_orcid(&template, &options);
    assert!(result.contains("#let orcid_svg"));
    assert!(result.contains("https://orcid.org/0000-0002-1825-0097"));
    assert!(!result.contains("{{ORCID_ICON_DECLARATION}}"));
    assert!(!result.contains("{{ORCID_ID}}"));
}

#[test]
fn icon_declaration_embeds_escaped_svg() {
    let decl = orcid_icon_declaration_text();
    assert!(decl.starts_with("#let orcid_svg"));
    assert!(decl.contains("\\\"12\\\""));
    assert!(decl.contains("width: 18pt"));
    let expected = "#let orcid_svg = box(image(bytes(\"<svg xmlns=\\\"http://www.w3.org/2000/svg\\\" viewBox=\\\"0 0 24 24\\\"><circle cx=\\\"12\\\" cy=\\\"12\\\" r=\\\"11\\\" fill=\\\"#A6CE39\\\"/></svg>\"), width: 18pt, height: 18pt), height: 18pt)";
    assert_eq!(decl, String::from(expected));
}

#[test]
fn orcid_icon_mode_renders_icon_link_and_declaration() {
    let options = base_options();
    let result = substitute_orcid("{{ORCID_ID}}\n{{ORCID_ICON_DECLARATION}}", &options);
    let expected = format!(
        " #orcid_svg https://orcid.org/0000-0002-1825-0097\n{}",
        orcid_icon_declaration_text()
    );
    assert_eq!(result, expected);
}

#[test]
fn substitution_without_tokens_is_identity() {
    let template = String::from("= A plain document\nNothing to fill in.\n");
    let options = base_options();
    let result = substitute_template(template.clone(), &options).ok().unwrap();
    assert_eq!(result, template);
}

#[test]
fn unmatched_tokens_are_left_as_is() {
    let template = String::from("{{UNKNOWN_TOKEN}} stays");
    let options = base_options();
    let result = substitute_template(template.clone(), &options).ok().unwrap();
    assert_eq!(result, template);
}

#[test]
fn builtin_report_resolution_ignores_disk_state() {
    for cfg in [None, Some(String::from("/anywhere"))] {
        for dir_present in [false, true] {
            for file_present in [false, true] {
                let r = resolve_template_source("report", cfg.clone(), dir_present, file_present);
                assert_eq!(r.ok().unwrap(), TemplateSource::BuiltinReport);
            }
        }
    }
    let r = resolve_template_source("article", None, false, false);
    assert_eq!(r.ok().unwrap(), TemplateSource::BuiltinArticle);
}

#[test]
fn custom_template_lookup_appends_extension_once() {
    let r = resolve_template_source("foo", Some(String::from("/home/u/.config")), true, true);
    assert_eq!(
        r.ok().unwrap(),
        TemplateSource::Custom(String::from("/home/u/.config/typstgen/templates/foo.typ"))
    );
    let r = resolve_template_source("foo.typ", Some(String::from("/home/u/.config")), true, true);
    assert_eq!(
        r.ok().unwrap(),
        TemplateSource::Custom(String::from("/home/u/.config/typstgen/templates/foo.typ"))
    );
    assert_eq!(normalize_template_name("foo"), String::from("foo.typ"));
    assert_eq!(normalize_template_name("foo.typ"), String::from("foo.typ"));
}

#[test]
fn custom_template_resolution_errors() {
    let r = resolve_template_source("foo", None, false, false);
    assert!(matches!(r, Err(TemplatingError::CouldNotFindCfgDir)));

    let r = resolve_template_source("foo", Some(String::from("/home/u/.config")), false, false);
    assert_eq!(
        r.err().unwrap(),
        TemplatingError::NoTemplateDirectory(String::from("/home/u/.config/typstgen/templates"))
    );

    let r = resolve_template_source("foo", Some(String::from("/home/u/.config")), true, false);
    assert_eq!(
        r.err().unwrap(),
        TemplatingError::TemplateNotFound(String::from("foo"))
    );
}

#[test]
fn get_template_returns_builtin_text() {
    let t = get_template(TemplateSource::BuiltinReport, None).ok().unwrap();
    match t {
        Template::Report(text) => {
            assert!(text.contains("{{AUTHOR_NAME}}"));
            assert!(text.contains("{{ORCID_ICON_DECLARATION}}"));
            assert!(text.contains("{{LANG}}"));
            assert!(text.contains("{{EMAIL}}"));
            assert!(text.contains("{{ORCID_ID}}"));
        }
        other => panic!("expected the report template, got {:?}", other),
    }
    let t = get_template(TemplateSource::BuiltinArticle, None).ok().unwrap();
    assert!(matches!(t, Template::Article(_)));
}

#[test]
fn get_template_custom_needs_file_text() {
    let source = TemplateSource::Custom(String::from("/tmp/t.typ"));
    let t = get_template(source, Some(String::from("body"))).ok().unwrap();
    match t {
        Template::Custom(text) => assert_eq!(text, String::from("body")),
        other => panic!("expected the custom text, got {:?}", other),
    }
    let source = TemplateSource::Custom(String::from("/tmp/t.typ"));
    let e = get_template(source, None).err().unwrap();
    assert_eq!(
        e,
        TemplatingError::CouldNotReadTemplateFile(String::from("/tmp/t.typ"))
    );
}

#[test]
fn assemble_custom_template_end_to_end() {
    let mut options = base_options();
    options.template = TemplateSource::Custom(String::from("custom_template.typ"));
    let result = assemble_template(&options, Some(String::from("{{AUTHOR_NAME}} {{EMAIL}}")))
        .ok()
        .unwrap();
    assert_eq!(result, String::from("John Doe john.doe@example.com"));
}

#[test]
fn assemble_custom_template_without_text_fails() {
    let mut options = base_options();
    options.template = TemplateSource::Custom(String::from("custom_template.typ"));
    let e = assemble_template(&options, None).err().unwrap();
    assert_eq!(
        e,
        TemplatingError::CouldNotReadTemplateFile(String::from("custom_template.typ"))
    );
}

#[test]
fn output_precedence_flag_over_config_over_default() {
    let mut config = empty_config();
    config.default_output = Some(String::from("from_config"));

    let flags = |output: Option<String>| Args {
        output,
        template: None,
        author: Some(String::from("A B")),
        orcid: None,
        lang: String::from("en"),
        debug: false,
    };

    let f = parse_cli_args(flags(Some(String::from("from_cli")))).ok().unwrap();
    assert_eq!(apply_config(&config, f).output, String::from("from_cli"));

    let f = parse_cli_args(flags(None)).ok().unwrap();
    assert_eq!(apply_config(&config, f).output, String::from("from_config"));

    let f = parse_cli_args(flags(None)).ok().unwrap();
    assert_eq!(apply_default_config(f).output, String::from("output"));
}

#[test]
fn parse_cli_args_passes_fields_through() {
    let args = Args {
        output: Some(String::from("thesis")),
        template: Some(String::from("report")),
        author: Some(String::from("John Doe")),
        orcid: Some(String::from("0000-0002-1825-0097")),
        lang: String::from("  en "),
        debug: true,
    };
    let f = parse_cli_args(args).ok().unwrap();
    assert_eq!(f.output, Some(String::from("thesis")));
    assert_eq!(f.template, Some(TemplateSource::BuiltinReport));
    assert_eq!(f.author, Some(String::from("John Doe")));
    assert_eq!(f.orcid, Some(String::from("0000-0002-1825-0097")));
    assert_eq!(f.lang, String::from("en"));
    assert!(f.debug);

    let args = Args {
        output: None,
        template: None,
        author: None,
        orcid: None,
        lang: String::from("de"),
        debug: false,
    };
    let f = parse_cli_args(args).ok().unwrap();
    assert_eq!(f.template, None);
    assert_eq!(f.lang, String::from("de"));
}

#[test]
fn default_orcid_is_all_zero_groups() {
    let f = parse_cli_args(Args {
        output: None,
        template: None,
        author: Some(String::from("John Doe")),
        orcid: None,
        lang: String::from("en"),
        debug: false,
    })
    .ok()
    .unwrap();
    let options = apply_default_config(f);
    assert_eq!(options.orcid, String::from("0000-0000-0000-0000"));
    assert_eq!(options.template, TemplateSource::BuiltinReport);
}
