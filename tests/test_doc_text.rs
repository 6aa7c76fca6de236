use model_generator::doc_text::{
    extract_example_usage, extract_modules, extract_package_description, extract_package_name, extract_package_version,
    extract_toml_value,
};

const CARGO_TEXT: &str = "[package]\nname = \"model-generator\"\nversion = \"0.1.0\"\nedition = \"2021\"\n\n[dependencies]\nnalgebra = \"0.32\"\n";

#[test]
fn package_fields() {
    assert_eq!(extract_package_name(CARGO_TEXT), "model-generator");
    assert_eq!(extract_package_version(CARGO_TEXT), "0.1.0");
    assert_eq!(extract_package_description(CARGO_TEXT), "");
    assert_eq!(extract_toml_value(CARGO_TEXT, "nalgebra"), "0.32");
}

#[test]
fn toml_value_takes_first_matching_line() {
    let text = "  name_suffix = \"first\"\nname = \"second\"\n";
    assert_eq!(extract_toml_value(text, "name"), "first");
    assert_eq!(extract_toml_value("name\nname = 3\n", "name"), "3");
}

#[test]
fn toml_value_trims_and_strips_quotes() {
    assert_eq!(extract_toml_value("\t description =   \"\"A lib\"\"  \r\n", "description"), "A lib");
    assert_eq!(extract_toml_value("url = \"a=b\"", "url"), "a");
    assert_eq!(extract_toml_value("key = ", "key"), "");
    assert_eq!(extract_toml_value("", "key"), "");
    assert_eq!(extract_toml_value("a = 1\nb = 2", "b"), "2");
    assert_eq!(extract_toml_value("x = \u{3000}wide\u{3000}\n", "x"), "wide");
}

#[test]
fn module_names_from_source() {
    let src = "//! crate\npub mod a;\n  pub mod b ;\nmod c;\npub mod d\npub mod e; // note\n\tpub mod f;\r\n";
    assert_eq!(extract_modules(src), vec!["a", "b", "f"]);
    assert_eq!(extract_modules("pub mod ;"), vec![""]);
    assert!(extract_modules("").is_empty());
    assert!(extract_modules("pub modx;\npub(crate) mod y;\n").is_empty());
}

#[test]
fn usage_section_is_dedented_code() {
    let src = "//! Example\n// USAGE:\n//     let m = Cube::new().build();\n//       m.apply(x);\n//\nfn main() {}\n";
    assert_eq!(
        extract_example_usage(src),
        "<h4>Usage</h4>\n<pre><code class=\"language-rust\">\nlet m = Cube::new().build();\n  m.apply(x);\n</code></pre>\n"
    );
}

#[test]
fn usage_section_left_open_at_the_end() {
    assert_eq!(
        extract_example_usage("// USAGE:\r\n//   a();\r\n"),
        "<h4>Usage</h4>\n<pre><code class=\"language-rust\">\na();</code></pre>\n"
    );
}

#[test]
fn usage_from_main_keeps_calls() {
    let src = "use x;\n\nfn main() {\n    let c = Cube::new();\n    // comment(x)\n    println!(\"hi\");\n    assert!(ok());\n    if c.ok() {\n        c.run(1);\n    }\n}\nfn other() { call(); }\n";
    assert_eq!(
        extract_example_usage(src),
        "<h4>Example Usage</h4>\n<pre><code class=\"language-rust\">\nlet c = Cube::new();\nif c.ok() {\n    c.run(1);\n</code></pre>\n"
    );
}

#[test]
fn usage_missing() {
    let none = "<p>No usage information available.</p>";
    assert_eq!(extract_example_usage("fn helper() {}\n"), none);
    assert_eq!(extract_example_usage("fn main() {\n}\n"), none);
    assert_eq!(extract_example_usage(""), none);
}
