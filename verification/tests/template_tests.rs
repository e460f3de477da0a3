use typstgen::templates::{substitute_orcid, substitute_template, TemplateSource};
use typstgen::Options;

fn options_for_substitution(debug: bool) -> Options {
    Options {
        output: String::from("output"),
        template: TemplateSource::Custom(String::from("custom_template.typ")),
        author: String::from("John Doe"),
        email: String::from("john.doe@example.com"),
        lang: String::from("en"),
        debug,
        lib_file: String::from("lib.typ"),
        orcid: String::from("0000-0002-1825-0097"),
    }
}

#[test]
fn test_substitute_orcid() {
    let template = String::from("{{ORCID_ID}}");
    let options = options_for_substitution(false);
    let result = substitute_orcid(&template, &options);
    assert_eq!(
        result,
        String::from(" | https://orcid.org/0000-0002-1825-0097")
    );
}

#[test]
fn test_substitute_author() {
    let template = String::from("{{AUTHOR_NAME}}");
    let options = options_for_substitution(false);
    let result = substitute_template(template, &options).ok().unwrap();
    assert!(result.contains("John Doe"));
    assert!(!result.contains("{{AUTHOR_NAME}}"));
}

#[test]
fn test_substitute_email() {
    let template = String::from("{{EMAIL}}");
    let options = options_for_substitution(false);
    let result = substitute_template(template, &options).ok().unwrap();
    assert!(result.contains("john.doe@example.com"));
    assert!(!result.contains("{{EMAIL}}"));
}

#[test]
fn test_substitute_lang() {
    let template = String::from("{{LANG}}");
    let options = options_for_substitution(false);
    let result = substitute_template(template, &options).ok().unwrap();
    assert!(result.contains("en"));
    assert!(!result.contains("{{LANG}}"));
}

#[test]
fn test_substitute_debug() {
    let template = String::from("{{LANG}}");
    let options = options_for_substitution(true);
    let result = substitute_template(template, &options).ok().unwrap();
    assert!(result.contains("en"));
    assert!(!result.contains("{{LANG}}"));
}

#[test]
fn test_substitute_author_and_email() {
    let template = String::from("{{AUTHOR_NAME}} {{EMAIL}}");
    let options = options_for_substitution(false);
    let result = substitute_template(template, &options).ok().unwrap();
    assert!(result.contains("John Doe john.doe@example.com"));
    assert!(!result.contains("{{AUTHOR_NAME}}"));
    assert!(!result.contains("{{EMAIL}}"));
}

#[test]
fn test_substitute_orcid_and_author() {
    let template = String::from("{{AUTHOR_NAME}}{{ORCID_ID}}");
    let options = options_for_substitution(false);
    let result = substitute_template(template, &options).ok().unwrap();
    assert!(result.contains("John Doe | https://orcid.org/0000-0002-1825-0097"));
    assert!(!result.contains("{{ORCID_ID}}"));
    assert!(!result.contains("{{AUTHOR_NAME}}"));
}
