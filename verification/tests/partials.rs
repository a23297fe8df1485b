use stubgen::config_file::UnitSwift;
use stubgen::failure::Failure;
use stubgen::generator::render_unit_test_template;
use stubgen::partials::has_partial;

fn record() -> UnitSwift {
    UnitSwift {
        project_name: String::from("Proj"),
        class_name: String::from("Foo"),
        created_date: String::from("01/02/2024"),
    }
}

#[test]
fn plain_templates_include_no_partial() {
    assert!(!has_partial(""));
    assert!(!has_partial("class {{class_name}}Tests {}"));
    assert!(!has_partial("{{#if class_name}}x{{else}}y{{/if}}"));
    assert!(!has_partial("a > b"));
    assert!(!has_partial("{ {> a}}"));
    assert!(!has_partial("{{class_name}} > {{project_name}}"));
    assert!(!has_partial("{{a>b}}"));
    assert!(!has_partial("{{"));
    assert!(!has_partial("{{~#"));
    assert!(!has_partial(">{{"));
}

#[test]
fn partial_tags_are_found() {
    assert!(has_partial("{{> a}}"));
    assert!(has_partial("{{>a}}"));
    assert!(has_partial("x{{~> a}}"));
    assert!(has_partial("{{ > a}}"));
    assert!(has_partial("{{\n\t> a}}"));
    assert!(has_partial("{{#> a}}b{{/a}}"));
    assert!(has_partial("{{~ # > a}}b{{/a}}"));
    assert!(has_partial("{{{> a}}}"));
    assert!(has_partial("{{class_name}}{{> a}}"));
    assert!(has_partial("{{#*inline \"a\"}}x{{/inline}}{{> a}}"));
}

#[test]
fn template_with_a_partial_is_refused() {
    assert_eq!(
        render_unit_test_template("{{#*inline \"a\"}}x{{/inline}}{{> a}}", record()),
        Err(Failure::TemplateRender)
    );
}

#[test]
fn partial_that_includes_itself_is_refused() {
    assert_eq!(
        render_unit_test_template("{{#*inline \"a\"}}x{{> a}}{{/inline}}{{> a}}", record()),
        Err(Failure::TemplateRender)
    );
}

#[test]
fn inline_partial_that_is_never_included_renders() {
    assert_eq!(
        render_unit_test_template("{{#*inline \"a\"}}x{{/inline}}[{{class_name}}]", record()),
        Ok(String::from("[Foo]"))
    );
}
