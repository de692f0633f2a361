use pdfify::config::{Config, DEFAULT_BRIGHTEN, DEFAULT_CONTRAST_PERCENT};
use pdfify::digits::decimal_string;
use pdfify::plan::{convert_args, deletion_plan, processed_name, processed_names};

fn config(files: Vec<&str>) -> Config {
    Config {
        files: files.into_iter().map(|s| s.to_string()).collect(),
        output: None,
        verbose: false,
        delete_images: false,
        delete_original: false,
        delete_processed: false,
        brighten: None,
    }
}

#[test]
fn decimal_of_small_numbers() {
    assert_eq!(decimal_string(0), "0");
    assert_eq!(decimal_string(7), "7");
    assert_eq!(decimal_string(10), "10");
    assert_eq!(decimal_string(105), "105");
}

#[test]
fn decimal_of_largest_value() {
    assert_eq!(decimal_string(u64::MAX), "18446744073709551615");
}

#[test]
fn processed_name_prefixes_position() {
    assert_eq!(processed_name(1, "a.png"), "p1_a.png");
    assert_eq!(processed_name(2, "b.png"), "p2_b.png");
    assert_eq!(processed_name(12, "img.jpg"), "p12_img.jpg");
}

#[test]
fn processed_names_are_positional_and_ordered() {
    let names = processed_names(&vec!["a.png".to_string(), "b.png".to_string()]);
    assert_eq!(names, vec!["p1_a.png", "p2_b.png"]);
}

#[test]
fn processed_names_of_empty_list() {
    let names = processed_names(&Vec::new());
    assert!(names.is_empty());
}

#[test]
fn output_defaults_when_omitted() {
    let cfg = config(vec!["a.png"]);
    assert_eq!(cfg.resolve_output(), "pdfified.pdf");
}

#[test]
fn output_override_is_kept() {
    let mut cfg = config(vec!["a.png"]);
    cfg.output = Some("album.pdf".to_string());
    assert_eq!(cfg.resolve_output(), "album.pdf");
}

#[test]
fn brighten_defaults_when_omitted() {
    let cfg = config(vec!["a.png"]);
    assert_eq!(cfg.resolve_brighten(), DEFAULT_BRIGHTEN);
    assert_eq!(cfg.resolve_brighten(), 80);
}

#[test]
fn brighten_override_is_kept() {
    let mut cfg = config(vec!["a.png"]);
    cfg.brighten = Some(-5);
    assert_eq!(cfg.resolve_brighten(), -5);
}

#[test]
fn contrast_default_constant() {
    assert_eq!(DEFAULT_CONTRAST_PERCENT, 40);
}

#[test]
fn convert_args_keep_input_order_then_output() {
    let cfg = config(vec!["a.png", "b.png"]);
    let args = convert_args(&cfg);
    assert_eq!(args, vec!["p1_a.png", "p2_b.png", "pdfified.pdf"]);
}

#[test]
fn convert_args_use_configured_output_last() {
    let mut cfg = config(vec!["b.png", "a.png"]);
    cfg.output = Some("out.pdf".to_string());
    let args = convert_args(&cfg);
    assert_eq!(args, vec!["p1_b.png", "p2_a.png", "out.pdf"]);
}

#[test]
fn no_deletion_flags_leave_everything() {
    let cfg = config(vec!["a.png", "b.png"]);
    assert!(deletion_plan(&cfg).is_empty());
}

#[test]
fn combined_flag_deletes_originals_then_processed() {
    let mut cfg = config(vec!["a.png", "b.png"]);
    cfg.delete_images = true;
    let plan = deletion_plan(&cfg);
    assert_eq!(plan, vec!["a.png", "b.png", "p1_a.png", "p2_b.png"]);
}

#[test]
fn combined_flag_ignores_single_purpose_flags() {
    let mut cfg = config(vec!["a.png", "b.png"]);
    cfg.delete_images = true;
    cfg.delete_original = true;
    cfg.delete_processed = true;
    let plan = deletion_plan(&cfg);
    assert_eq!(plan, vec!["a.png", "b.png", "p1_a.png", "p2_b.png"]);
}

#[test]
fn original_only_flag_leaves_processed_files() {
    let mut cfg = config(vec!["a.png", "b.png"]);
    cfg.delete_original = true;
    let plan = deletion_plan(&cfg);
    assert_eq!(plan, vec!["a.png", "b.png"]);
    assert!(!plan.contains(&"p1_a.png".to_string()));
    assert!(!plan.contains(&"p2_b.png".to_string()));
}

#[test]
fn processed_only_flag_leaves_original_files() {
    let mut cfg = config(vec!["a.png", "b.png"]);
    cfg.delete_processed = true;
    let plan = deletion_plan(&cfg);
    assert_eq!(plan, vec!["p1_a.png", "p2_b.png"]);
    assert!(!plan.contains(&"a.png".to_string()));
    assert!(!plan.contains(&"b.png".to_string()));
}

#[test]
fn both_single_purpose_flags_delete_originals_before_processed() {
    let mut cfg = config(vec!["a.png"]);
    cfg.delete_original = true;
    cfg.delete_processed = true;
    let plan = deletion_plan(&cfg);
    assert_eq!(plan, vec!["a.png", "p1_a.png"]);
}
