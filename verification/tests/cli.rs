use eink::cli::{default_output, output_path, parse_args, parse_config_path};

fn strings(args: &[&str]) -> Vec<String> {
    args.iter().map(|a| a.to_string()).collect()
}

#[test]
fn reads_config_and_output_flags() {
    let args = parse_args(&strings(&["--config", "a.toml", "-o", "out.png"]));
    assert_eq!(args.config, "a.toml");
    assert_eq!(args.output, Some("out.png".to_string()));
    assert!(args.ignored.is_empty());
    assert_eq!(output_path(&args, false), Some("out.png".to_string()));
    assert_eq!(output_path(&args, true), Some("out.png".to_string()));
}

#[test]
fn defaults_and_ignores_unknown_arguments() {
    let args = parse_args(&strings(&["--verbose", "-c"]));
    assert_eq!(args.config, "config.toml");
    assert_eq!(args.output, None);
    assert_eq!(args.ignored, strings(&["--verbose"]));
    assert_eq!(output_path(&args, false), Some("forecast.png".to_string()));
    assert_eq!(default_output(false), Some("forecast.png".to_string()));
    let args = parse_args(&strings(&["-o", "x.png", "--output"]));
    assert_eq!(args.output, None);
}

#[test]
fn daemon_finds_its_config_path() {
    assert_eq!(parse_config_path(&strings(&["-v", "--config", "d.toml"])), "d.toml");
    assert_eq!(parse_config_path(&strings(&["-c"])), "config.toml");
    assert_eq!(parse_config_path(&strings(&[])), "config.toml");
}

#[test]
fn panel_run_writes_no_png_unless_asked() {
    let args = parse_args(&strings(&["--config", "a.toml"]));
    assert_eq!(output_path(&args, true), None);
    assert_eq!(default_output(true), None);
}
