use uc_cli::project_toml::native_cairo_project_toml;
use uc_cli::surface::CrateDependencyConfig;

fn config(name: &str, edition: Option<&str>, deps: &[&str]) -> CrateDependencyConfig {
    CrateDependencyConfig {
        crate_name: name.to_string(),
        cairo_edition: edition.map(|e| e.to_string()),
        dependencies: deps.iter().map(|d| d.to_string()).collect(),
    }
}

#[test]
fn project_toml_lists_roots_global_edition_and_overrides() {
    let roots = vec![("demo".to_string(), "/w/src".to_string())];
    let configs = vec![
        config("demo", None, &["core", "dep"]),
        config("dep", Some(" 2024_07 "), &[]),
        config("other", Some(" 2024_07 "), &["q\"x"]),
    ];
    let text = native_cairo_project_toml(&roots, &configs, Some(" ".to_string()));
    let expected = "[crate_roots]\n\
demo = \"/w/src\"\n\
\n[config.global]\n\
edition = \"2023_01\"\n\
\n[config.override.demo]\n\
edition = \"2023_01\"\n\
\n[config.override.demo.dependencies]\n\
core = { discriminator = \"core\" }\n\
dep = { discriminator = \"dep\" }\n\
\n[config.override.other]\n\
edition = \"2024_07\"\n\
\n[config.override.other.dependencies]\n\
q\"x = { discriminator = \"q\\\"x\" }\n";
    assert_eq!(text, expected);
}

#[test]
fn project_toml_uses_given_global_edition() {
    let text = native_cairo_project_toml(&vec![], &vec![], Some("2024_07".to_string()));
    assert_eq!(text, "[crate_roots]\n\n[config.global]\nedition = \"2024_07\"\n");
}
