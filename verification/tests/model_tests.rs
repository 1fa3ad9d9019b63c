use golem_examples::model::GuestLanguage;
use golem_examples::model::GuestLanguageTier;
use golem_examples::model::PackageName;
use golem_examples::model::TemplateName;

#[test]
pub fn template_name_to_pascal_case() {
    assert_eq!(TemplateName::new("my-test-template").to_pascal_case(), "MyTestTemplate");
    assert_eq!(TemplateName::new("MyTestTemplate").to_pascal_case(), "MyTestTemplate");
    assert_eq!(TemplateName::new("myTestTemplate").to_pascal_case(), "MyTestTemplate");
    assert_eq!(TemplateName::new("my_test_template").to_pascal_case(), "MyTestTemplate");
}

#[test]
pub fn template_name_to_camel_case() {
    assert_eq!(TemplateName::new("my-test-template").to_camel_case(), "myTestTemplate");
    assert_eq!(TemplateName::new("MyTestTemplate").to_camel_case(), "myTestTemplate");
    assert_eq!(TemplateName::new("myTestTemplate").to_camel_case(), "myTestTemplate");
    assert_eq!(TemplateName::new("my_test_template").to_camel_case(), "myTestTemplate");
}

#[test]
pub fn template_name_to_snake_case() {
    assert_eq!(TemplateName::new("my-test-template").to_snake_case(), "my_test_template");
    assert_eq!(TemplateName::new("MyTestTemplate").to_snake_case(), "my_test_template");
    assert_eq!(TemplateName::new("myTestTemplate").to_snake_case(), "my_test_template");
    assert_eq!(TemplateName::new("my_test_template").to_snake_case(), "my_test_template");
}

#[test]
pub fn template_name_to_kebab_case() {
    assert_eq!(TemplateName::new("my-test-template").to_kebab_case(), "my-test-template");
    assert_eq!(TemplateName::new("MyTestTemplate").to_kebab_case(), "my-test-template");
    assert_eq!(TemplateName::new("myTestTemplate").to_kebab_case(), "my-test-template");
    assert_eq!(TemplateName::new("my_test_template").to_kebab_case(), "my-test-template");
}

#[test]
pub fn package_name_to_pascal_case() {
    assert_eq!(PackageName::from_string("foo:bar").unwrap().to_pascal_case(), "FooBar");
}

#[test]
fn split_recovers_words_from_every_convention() {
    let expected = vec![
        String::from("my"),
        String::from("test"),
        String::from("template"),
    ];
    assert_eq!(TemplateName::new("my-test-template").parts(), expected);
    assert_eq!(TemplateName::new("MyTestTemplate").parts(), expected);
    assert_eq!(TemplateName::new("myTestTemplate").parts(), expected);
    assert_eq!(TemplateName::new("my_test_template").parts(), expected);
}

#[test]
fn split_single_word_and_empty() {
    assert_eq!(TemplateName::new("hello").parts(), vec![String::from("hello")]);
    assert_eq!(TemplateName::new("").parts(), vec![String::from("")]);
}

#[test]
fn split_recovers_words_from_mixed_conventions() {
    let expected = vec![
        String::from("my"),
        String::from("test"),
        String::from("template"),
        String::from("case"),
    ];
    assert_eq!(TemplateName::new("my-test_templateCase").parts(), expected);
    assert_eq!(TemplateName::new("myTest-template_case").parts(), expected);
    assert_eq!(TemplateName::new("my_testTemplate-case").parts(), expected);
}

#[test]
fn split_degenerate_inputs_give_single_part() {
    assert_eq!(TemplateName::new("123").parts(), vec![String::from("123")]);
    assert_eq!(TemplateName::new("123").to_kebab_case(), "123");
    assert_eq!(TemplateName::new("").to_pascal_case(), "");
    assert_eq!(TemplateName::new("").to_kebab_case(), "");
}

#[test]
fn pascal_case_resplits_to_same_parts() {
    let original = TemplateName::new("someOther_name-here");
    let pascal = TemplateName::new(original.to_pascal_case().as_str());
    assert_eq!(pascal.parts(), original.parts());
}

#[test]
fn package_name_rejects_wrong_colon_counts() {
    assert!(PackageName::from_string("foobar").is_none());
    assert!(PackageName::from_string("a:b:c").is_none());
    assert!(PackageName::from_string("foo:bar").is_some());
}

#[test]
fn package_name_renderings() {
    let p = PackageName::from_string("golem:component").unwrap();
    assert_eq!(p.to_snake_case(), "golem_component");
    assert_eq!(p.to_kebab_case(), "golem-component");
    assert_eq!(p.to_string_with_double_colon(), "golem::component");
    assert_eq!(p.to_string_with_colon(), "golem:component");
    assert_eq!(p.to_string_with_slash(), "golem/component");
    assert_eq!(p.namespace_string(), "golem");
    assert_eq!(p.namespace_title_case(), "Golem");
}

#[test]
fn guest_language_from_string_aliases() {
    assert_eq!(GuestLanguage::from_string("Rust"), Some(GuestLanguage::Rust));
    assert_eq!(GuestLanguage::from_string("c++"), Some(GuestLanguage::C));
    assert_eq!(GuestLanguage::from_string("cpp"), Some(GuestLanguage::C));
    assert_eq!(GuestLanguage::from_string("JS"), Some(GuestLanguage::JavaScript));
    assert_eq!(GuestLanguage::from_string("javascript"), Some(GuestLanguage::JavaScript));
    assert_eq!(GuestLanguage::from_string("C#"), Some(GuestLanguage::CSharp));
    assert_eq!(GuestLanguage::from_string("cs"), Some(GuestLanguage::CSharp));
    assert_eq!(GuestLanguage::from_string("py"), Some(GuestLanguage::Python));
    assert_eq!(GuestLanguage::from_string("scala2"), Some(GuestLanguage::Scala2));
    assert_eq!(GuestLanguage::from_string("cobol"), None);
}

#[test]
fn guest_language_tier_and_name() {
    assert_eq!(GuestLanguage::Rust.tier(), GuestLanguageTier::Tier2);
    assert_eq!(GuestLanguage::Zig.tier(), GuestLanguageTier::Tier3);
    assert_eq!(GuestLanguage::CSharp.tier(), GuestLanguageTier::Tier4);
    assert_eq!(GuestLanguage::CSharp.name(), "C#");
    assert_eq!(GuestLanguage::Scala2.name(), "Scala 2");
    assert_eq!(GuestLanguage::Rust.name(), "Rust");
}

#[test]
fn guest_language_tier_from_string_and_level() {
    assert_eq!(GuestLanguageTier::from_string("tier1"), Some(GuestLanguageTier::Tier1));
    assert_eq!(GuestLanguageTier::from_string("2"), Some(GuestLanguageTier::Tier2));
    assert_eq!(GuestLanguageTier::from_string("TIER3"), Some(GuestLanguageTier::Tier3));
    assert_eq!(GuestLanguageTier::from_string("5"), None);
    assert_eq!(GuestLanguageTier::Tier1.level(), 1);
    assert_eq!(GuestLanguageTier::Tier4.level(), 4);
    assert_eq!(GuestLanguageTier::Tier2.name(), "tier2");
}

#[test]
fn template_name_accessors() {
    let n = TemplateName::new("my-app");
    assert_eq!(n.as_string(), "my-app");
    let e = golem_examples::model::ExampleName::from_string("rust-default");
    assert_eq!(e.as_string(), "rust-default");
}
