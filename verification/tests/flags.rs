use rcpy::{ConfigError, CopyOptions, ExecutionMode, Flags};

fn flags(verbose: bool, dry_run: bool, only_files: bool, only_dirs: bool) -> Flags {
    Flags { verbose, only_files, only_dirs, dry_run, no_recursive: false, single_thread: false }
}

#[test]
fn verbose_shows_everything_whatever_the_filters() {
    for dry_run in [false, true] {
        for only_files in [false, true] {
            for only_dirs in [false, true] {
                assert_eq!(flags(true, dry_run, only_files, only_dirs).visibility(), (true, true));
            }
        }
    }
}

#[test]
fn quiet_run_shows_nothing_whatever_the_filters() {
    for only_files in [false, true] {
        for only_dirs in [false, true] {
            assert_eq!(flags(false, false, only_files, only_dirs).visibility(), (false, false));
        }
    }
}

#[test]
fn quiet_dry_run_shows_everything_unless_narrowed() {
    assert_eq!(flags(false, true, false, false).visibility(), (true, true));
    assert_eq!(flags(false, true, true, false).visibility(), (true, false));
    assert_eq!(flags(false, true, false, true).visibility(), (false, true));
    assert_eq!(flags(false, true, true, true).visibility(), (true, false));
}

#[test]
fn conflict_is_verbose_together_with_a_filter() {
    for dry_run in [false, true] {
        assert!(!flags(true, dry_run, false, false).conflict());
        assert!(flags(true, dry_run, true, false).conflict());
        assert!(flags(true, dry_run, false, true).conflict());
        assert!(flags(true, dry_run, true, true).conflict());
        for only_files in [false, true] {
            for only_dirs in [false, true] {
                assert!(!flags(false, dry_run, only_files, only_dirs).conflict());
            }
        }
    }
}

#[test]
fn resolve_fills_in_the_configuration() {
    let given = Flags {
        verbose: false,
        only_files: false,
        only_dirs: true,
        dry_run: true,
        no_recursive: true,
        single_thread: true,
    };
    let options = CopyOptions::resolve(
        String::from("/src"),
        String::from("/dst"),
        vec![String::from(".psd"), String::from("tmp")],
        given,
    );
    assert_eq!(
        options,
        Ok(CopyOptions {
            source: String::from("/src"),
            destination: String::from("/dst"),
            show_files: false,
            show_dirs: true,
            recursive: false,
            dry_run: true,
            excludes: vec![String::from(".psd"), String::from("tmp")],
            mode: ExecutionMode::Sequential,
        })
    );
}

#[test]
fn resolve_defaults_to_a_recursive_concurrent_quiet_run() {
    let options = CopyOptions::resolve(
        String::from("a"),
        String::from("b"),
        Vec::new(),
        flags(false, false, false, false),
    )
    .unwrap();
    assert!(options.recursive);
    assert!(!options.dry_run);
    assert_eq!(options.mode, ExecutionMode::Concurrent);
    assert_eq!((options.show_files, options.show_dirs), (false, false));
    assert!(options.excludes.is_empty());
}

#[test]
fn resolve_refuses_the_same_source_and_destination() {
    let options = CopyOptions::resolve(
        String::from("/src"),
        String::from("/src"),
        Vec::new(),
        flags(true, false, false, false),
    );
    assert_eq!(options, Err(ConfigError::SameSourceAndDestination));
}
