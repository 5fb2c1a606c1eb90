use batch_convert::config::{parse_worker_count, Options, RunConfig, DEFAULT_WORKERS};
use batch_convert::depth::DepthRange;
use batch_convert::error::ConfigError;
use batch_convert::format::TargetFormat;
use batch_convert::task::Settings;

fn options(target: &str, sources: &[&str]) -> Options {
    Options::new(
        target.to_string(),
        sources.iter().map(|s| s.to_string()).collect(),
        "in".to_string(),
    )
}

#[test]
fn the_codec_knows_its_formats_by_their_extensions() {
    for name in ["png", "jpg", "jpeg", "gif", "webp", "bmp", "tiff", "ico", "qoi"] {
        assert_eq!(TargetFormat::new(name).unwrap().extension(), name);
    }
}

#[test]
fn the_codec_knows_no_format_by_another_name() {
    for name in ["xyz", "txt", "pngx", "p", "image", "jpg2"] {
        assert_eq!(TargetFormat::new(name).err(), Some(ConfigError::UnknownTargetFormat));
    }
}

#[test]
fn a_target_is_kept_without_its_dot_and_in_lower_case() {
    assert_eq!(TargetFormat::new("PNG").unwrap().extension(), "png");
    assert_eq!(TargetFormat::new(".png").unwrap().extension(), "png");
    assert_eq!(TargetFormat::new(".JpEg").unwrap().extension(), "jpeg");
}

#[test]
fn a_target_that_is_no_plain_extension_is_refused() {
    for name in ["", ".", "..png", "tar.png", "a/png", "png/", "png."] {
        assert_eq!(TargetFormat::new(name).err(), Some(ConfigError::UnknownTargetFormat));
        assert_eq!(
            TargetFormat::checked(name, true).err(),
            Some(ConfigError::UnknownTargetFormat)
        );
    }
}

#[test]
fn a_target_is_taken_as_the_codec_answers() {
    assert_eq!(TargetFormat::checked("xyz", true).unwrap().extension(), "xyz");
    assert_eq!(TargetFormat::checked(".XYZ", true).unwrap().extension(), "xyz");
    assert_eq!(
        TargetFormat::checked("png", false).err(),
        Some(ConfigError::UnknownTargetFormat)
    );
}

#[test]
fn options_begin_with_what_holds_when_nothing_is_asked() {
    let options = options("png", &["jpg"]);
    assert_eq!(options.target, "png");
    assert_eq!(options.sources, vec!["jpg"]);
    assert_eq!(options.input_dir, "in");
    assert_eq!(options.output_dir, None);
    assert!(!options.delete_original);
    assert!(!options.fail_fast);
    assert_eq!(options.workers, 8);
    assert_eq!(DEFAULT_WORKERS, 8);
    assert_eq!(options.depth_range, DepthRange::default());
}

#[test]
fn checked_settings_hold_what_was_given() {
    let mut given = options(".PNG", &["JPG", ".jpeg"]);
    given.output_dir = Some("out".to_string());
    given.delete_original = true;
    given.fail_fast = true;
    given.workers = 4;
    given.depth_range = DepthRange::from_bounds(1, 3).unwrap();
    let config = RunConfig::new(given).unwrap();
    assert_eq!(config.target().extension(), "png");
    assert_eq!(config.input_dir(), "in");
    assert_eq!(config.workers(), 4);
    assert_eq!(config.filter().range, DepthRange::from_bounds(1, 3).unwrap());
    assert!(config.filter().extensions.contains("jpg"));
    assert!(config.filter().extensions.contains("jpeg"));
    assert!(!config.filter().extensions.contains("png"));
    assert_eq!(
        config.settings(),
        Settings {
            target: "png".to_string(),
            dest_dir: Some("out".to_string()),
            delete_original: true,
            fail_fast: true,
        }
    );
}

#[test]
fn settings_without_an_output_directory() {
    let config = RunConfig::new(options("webp", &["png"])).unwrap();
    assert_eq!(
        config.settings(),
        Settings {
            target: "webp".to_string(),
            dest_dir: None,
            delete_original: false,
            fail_fast: false,
        }
    );
    assert_eq!(config.workers(), 8);
}

#[test]
fn an_unknown_target_is_refused() {
    assert_eq!(
        RunConfig::new(options("xyz", &["jpg"])).err(),
        Some(ConfigError::UnknownTargetFormat)
    );
    assert_eq!(
        RunConfig::new(options("", &["jpg"])).err(),
        Some(ConfigError::UnknownTargetFormat)
    );
}

#[test]
fn settings_without_a_source_format_are_refused() {
    assert_eq!(RunConfig::new(options("png", &[])).err(), Some(ConfigError::NoSourceFormats));
}

#[test]
fn settings_without_a_worker_are_refused() {
    let mut given = options("png", &["jpg"]);
    given.workers = 0;
    assert_eq!(RunConfig::new(given).err(), Some(ConfigError::NoWorkers));
}

#[test]
fn the_target_is_checked_first_and_the_workers_last() {
    let mut given = options("xyz", &[]);
    given.workers = 0;
    assert_eq!(RunConfig::new(given).err(), Some(ConfigError::UnknownTargetFormat));
    let mut given = options("png", &[]);
    given.workers = 0;
    assert_eq!(RunConfig::new(given).err(), Some(ConfigError::NoSourceFormats));
}

#[test]
fn settings_for_a_target_already_known() {
    let target = TargetFormat::new("gif").unwrap();
    let config = RunConfig::assemble(target, options("ignored", &["bmp"])).unwrap();
    assert_eq!(config.target().extension(), "gif");
    let target = TargetFormat::new("gif").unwrap();
    assert_eq!(
        RunConfig::assemble(target, options("gif", &[])).err(),
        Some(ConfigError::NoSourceFormats)
    );
}

#[test]
fn a_number_of_workers_is_read() {
    assert_eq!(parse_worker_count("8"), Ok(8));
    assert_eq!(parse_worker_count("1"), Ok(1));
    assert_eq!(parse_worker_count("+16"), Ok(16));
}

#[test]
fn no_workers_are_refused() {
    assert_eq!(parse_worker_count("0"), Err(ConfigError::NoWorkers));
    assert_eq!(parse_worker_count("000"), Err(ConfigError::NoWorkers));
}

#[test]
fn a_number_of_workers_that_is_no_number_is_refused() {
    assert_eq!(parse_worker_count("eight"), Err(ConfigError::InvalidWorkerCount));
    assert_eq!(parse_worker_count(""), Err(ConfigError::InvalidWorkerCount));
    assert_eq!(parse_worker_count("-4"), Err(ConfigError::InvalidWorkerCount));
    assert_eq!(parse_worker_count("4.0"), Err(ConfigError::InvalidWorkerCount));
    let too_many = format!("{}0", usize::MAX);
    assert_eq!(parse_worker_count(&too_many), Err(ConfigError::InvalidWorkerCount));
}

#[test]
fn a_target_among_the_sources_is_told() {
    assert!(!RunConfig::new(options("png", &["jpg", "jpeg"])).unwrap().target_is_source());
    assert!(RunConfig::new(options("png", &["jpg", "PNG"])).unwrap().target_is_source());
    assert!(RunConfig::new(options(".JPG", &["jpg"])).unwrap().target_is_source());
    assert!(!RunConfig::new(options("jpg", &["jpeg"])).unwrap().target_is_source());
}
