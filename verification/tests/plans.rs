use rcpy::copy::{create_directories, create_files, dispatch, entry_in_scope, max_depth, partition};
use rcpy::{
    copied_single, copy_parallel, copy_single_threaded, run_copy, Action, CopyOptions, CopyStats,
    Entry, EntryKind, ExecutionMode, Step,
};

fn found(path: &str, kind: EntryKind) -> Entry {
    Entry::new("/src", path, kind).unwrap()
}

fn tree() -> Vec<Entry> {
    vec![
        found("/src", EntryKind::Directory),
        found("/src/a.txt", EntryKind::File),
        found("/src/b.psd", EntryKind::File),
        found("/src/sub", EntryKind::Directory),
        found("/src/sub/c.txt", EntryKind::File),
    ]
}

fn options(recursive: bool, dry_run: bool, mode: ExecutionMode) -> CopyOptions {
    CopyOptions {
        source: String::from("/src"),
        destination: String::from("/dst"),
        show_files: false,
        show_dirs: false,
        recursive,
        dry_run,
        excludes: vec![String::from("psd")],
        mode,
    }
}

fn step(kind: EntryKind, source: &str, destination: &str, step: Step) -> Action {
    Action { kind, source: String::from(source), destination: String::from(destination), step }
}

fn all_steps(dirs: &[Action], files: &[Action]) -> Vec<Action> {
    dirs.iter().chain(files.iter()).cloned().collect()
}

#[test]
fn recursive_concurrent_copy_skips_the_excluded_file() {
    let plan = run_copy(&options(true, false, ExecutionMode::Concurrent), &tree());
    let done = Step::Perform { announce: false };
    assert_eq!(plan.mode, ExecutionMode::Concurrent);
    assert_eq!(plan.directories, vec![step(EntryKind::Directory, "/src/sub", "/dst/sub", done)]);
    assert_eq!(
        plan.files,
        vec![
            step(EntryKind::File, "/src/a.txt", "/dst/a.txt", done),
            step(EntryKind::File, "/src/b.psd", "/dst/b.psd", Step::Skip),
            step(EntryKind::File, "/src/sub/c.txt", "/dst/sub/c.txt", done),
        ]
    );
    assert_eq!(plan.stats, CopyStats { files: 2, dirs: 1 });
    let steps = all_steps(&plan.directories, &plan.files);
    let written: Vec<&str> =
        steps.iter().filter(|a| a.mutates()).map(|a| a.destination.as_str()).collect();
    assert_eq!(written, vec!["/dst/sub", "/dst/a.txt", "/dst/sub/c.txt"]);
    assert!(!plan.files.iter().any(|a| a.destination == "/dst/b.psd" && a.mutates()));
}

#[test]
fn non_recursive_copy_stays_at_the_top_level() {
    let plan = run_copy(&options(false, false, ExecutionMode::Concurrent), &tree());
    let done = Step::Perform { announce: false };
    assert_eq!(plan.directories, Vec::<Action>::new());
    assert_eq!(
        plan.files,
        vec![
            step(EntryKind::File, "/src/a.txt", "/dst/a.txt", done),
            step(EntryKind::File, "/src/b.psd", "/dst/b.psd", Step::Skip),
        ]
    );
    let created: Vec<&str> =
        plan.files.iter().filter(|a| a.mutates()).map(|a| a.destination.as_str()).collect();
    assert_eq!(created, vec!["/dst/a.txt"]);
    assert_eq!(plan.stats, CopyStats { files: 1, dirs: 0 });
}

#[test]
fn single_file_goes_into_an_existing_directory_under_its_name() {
    let action = copied_single("/src/report.pdf", "/dst/", true, true, false).unwrap();
    assert_eq!(
        action,
        step(EntryKind::File, "/src/report.pdf", "/dst/report.pdf", Step::Perform { announce: true })
    );
    let action = copied_single("/src/report.pdf", "/dst", true, true, false).unwrap();
    assert_eq!(action.destination, "/dst/report.pdf");
}

#[test]
fn single_file_goes_to_the_destination_path_where_that_is_no_directory() {
    let action = copied_single("/src/report.pdf", "/dst/copy.pdf", true, false, false).unwrap();
    assert_eq!(
        action,
        step(EntryKind::File, "/src/report.pdf", "/dst/copy.pdf", Step::Perform { announce: true })
    );
}

#[test]
fn single_file_in_a_dry_run_is_simulated() {
    let action = copied_single("/src/report.pdf", "/dst", true, true, true).unwrap();
    assert_eq!(
        action,
        step(EntryKind::File, "/src/report.pdf", "/dst/report.pdf", Step::Simulate)
    );
    assert!(!action.mutates());
}

#[test]
fn source_that_is_no_plain_file_is_no_single_copy() {
    assert_eq!(copied_single("/src", "/dst", false, true, false), None);
    assert_eq!(copied_single("/src", "/dst", false, false, true), None);
}

#[test]
fn dry_run_mirrors_the_run() {
    let live = run_copy(&options(true, false, ExecutionMode::Concurrent), &tree());
    let dry = run_copy(&options(true, true, ExecutionMode::Concurrent), &tree());
    assert_eq!(dry.stats, live.stats);
    assert_eq!(dry.stats, CopyStats { files: 2, dirs: 1 });
    assert!(all_steps(&dry.directories, &dry.files).iter().all(|a| !a.mutates()));
    let lines: Vec<String> =
        all_steps(&dry.directories, &dry.files).iter().filter_map(|a| a.log_line()).collect();
    assert_eq!(
        lines,
        vec![
            String::from("[DRY RUN] mkdir /dst/sub"),
            String::from("[DRY RUN] /src/a.txt -> /dst/a.txt"),
            String::from("[DRY RUN] /src/sub/c.txt -> /dst/sub/c.txt"),
        ]
    );
    assert!(lines.iter().all(|l| l.starts_with("[DRY RUN] ")));
    let live_steps = all_steps(&live.directories, &live.files);
    let dry_steps = all_steps(&dry.directories, &dry.files);
    assert_eq!(dry_steps.len(), live_steps.len());
    for (d, l) in dry_steps.iter().zip(live_steps.iter()) {
        assert_eq!((d.kind, &d.source, &d.destination), (l.kind, &l.source, &l.destination));
        assert_eq!(d.step == Step::Skip, l.step == Step::Skip);
        assert_eq!(d.step == Step::Simulate, l.mutates());
    }
}

#[test]
fn strategies_plan_the_same_steps_and_statistics() {
    for recursive in [false, true] {
        for dry_run in [false, true] {
            let one = copy_single_threaded(&options(recursive, dry_run, ExecutionMode::Sequential), &tree());
            let many = copy_parallel(&options(recursive, dry_run, ExecutionMode::Concurrent), &tree());
            assert_eq!(one.mode, ExecutionMode::Sequential);
            assert_eq!(many.mode, ExecutionMode::Concurrent);
            assert_eq!(one.stats, many.stats);
            assert_eq!(one.directories, many.directories);
            assert_eq!(one.files, many.files);
        }
    }
}

#[test]
fn run_copy_follows_the_mode_of_the_options() {
    let entries = tree();
    let sequential = options(true, false, ExecutionMode::Sequential);
    let concurrent = options(true, false, ExecutionMode::Concurrent);
    assert_eq!(run_copy(&sequential, &entries), copy_single_threaded(&sequential, &entries));
    assert_eq!(run_copy(&concurrent, &entries), copy_parallel(&concurrent, &entries));
}

#[test]
fn planning_again_gives_the_same_plan() {
    let entries = tree();
    let configured = options(true, false, ExecutionMode::Concurrent);
    let first = run_copy(&configured, &entries);
    let second = run_copy(&configured, &entries);
    assert_eq!(second, first);
    assert_eq!(second.stats, CopyStats { files: 2, dirs: 1 });
}

#[test]
fn directories_are_counted_whatever_is_excluded() {
    let entries = tree();
    for excludes in [vec![], vec!["psd"], vec!["txt"], vec!["psd", "txt"], vec!["sub"]] {
        let mut configured = options(true, false, ExecutionMode::Sequential);
        configured.excludes = excludes.iter().map(|e| String::from(*e)).collect();
        let plan = run_copy(&configured, &entries);
        assert_eq!(plan.stats.dirs, 1);
        assert_eq!(plan.directories.len(), 1);
        assert!(plan.directories.iter().all(|a| a.step != Step::Skip));
    }
}

#[test]
fn files_are_counted_without_the_excluded() {
    let entries = tree();
    let mut configured = options(true, false, ExecutionMode::Sequential);
    configured.excludes = vec![];
    assert_eq!(run_copy(&configured, &entries).stats, CopyStats { files: 3, dirs: 1 });
    configured.excludes = vec![String::from(".TXT")];
    assert_eq!(run_copy(&configured, &entries).stats, CopyStats { files: 1, dirs: 1 });
    configured.excludes = vec![String::from("txt"), String::from("psd")];
    assert_eq!(run_copy(&configured, &entries).stats, CopyStats { files: 0, dirs: 1 });
}

#[test]
fn copied_files_are_the_files_in_scope_that_are_not_excluded() {
    let plan = run_copy(&options(true, false, ExecutionMode::Concurrent), &tree());
    let copied: Vec<(&str, &str)> = plan
        .files
        .iter()
        .filter(|a| a.mutates())
        .map(|a| (a.source.as_str(), a.destination.as_str()))
        .collect();
    assert_eq!(
        copied,
        vec![("/src/a.txt", "/dst/a.txt"), ("/src/sub/c.txt", "/dst/sub/c.txt")]
    );
}

#[test]
fn source_root_is_no_step_of_the_plan() {
    let plan = run_copy(&options(true, false, ExecutionMode::Sequential), &tree());
    assert!(all_steps(&plan.directories, &plan.files).iter().all(|a| a.source != "/src"));
    assert!(all_steps(&plan.directories, &plan.files).iter().all(|a| a.destination != "/dst"));
    let only_root = vec![found("/src", EntryKind::Directory)];
    let empty = run_copy(&options(true, false, ExecutionMode::Sequential), &only_root);
    assert_eq!(empty.stats, CopyStats { files: 0, dirs: 0 });
    assert_eq!(empty.progress_total(), 0);
}

#[test]
fn empty_tree_gives_an_empty_plan() {
    let plan = run_copy(&options(true, false, ExecutionMode::Concurrent), &[]);
    assert_eq!(plan.directories, Vec::<Action>::new());
    assert_eq!(plan.files, Vec::<Action>::new());
    assert_eq!(plan.stats, CopyStats { files: 0, dirs: 0 });
}

#[test]
fn directories_come_before_files_whatever_the_traversal_order() {
    let entries = vec![
        found("/src/sub/deep/x.bin", EntryKind::File),
        found("/src/sub/deep", EntryKind::Directory),
        found("/src/a.txt", EntryKind::File),
        found("/src/sub", EntryKind::Directory),
    ];
    let plan = run_copy(&options(true, false, ExecutionMode::Sequential), &entries);
    let dirs: Vec<&str> = plan.directories.iter().map(|a| a.destination.as_str()).collect();
    let files: Vec<&str> = plan.files.iter().map(|a| a.destination.as_str()).collect();
    assert_eq!(dirs, vec!["/dst/sub/deep", "/dst/sub"]);
    assert_eq!(files, vec!["/dst/sub/deep/x.bin", "/dst/a.txt"]);
    assert!(plan.directories.iter().all(|a| a.kind == EntryKind::Directory));
    assert!(plan.files.iter().all(|a| a.kind == EntryKind::File));
}

#[test]
fn files_below_a_directory_are_planned_and_counted_whatever_becomes_of_it() {
    let plan = run_copy(&options(true, false, ExecutionMode::Sequential), &tree());
    assert!(plan
        .files
        .contains(&step(EntryKind::File, "/src/sub/c.txt", "/dst/sub/c.txt", Step::Perform { announce: false })));
    assert_eq!(plan.stats.files, 2);
}

#[test]
fn progress_total_counts_every_step() {
    let recursive = run_copy(&options(true, false, ExecutionMode::Concurrent), &tree());
    assert_eq!(recursive.progress_total(), 4);
    let flat = run_copy(&options(false, true, ExecutionMode::Concurrent), &tree());
    assert_eq!(flat.progress_total(), 2);
}

#[test]
fn max_depth_is_one_without_recursion() {
    assert_eq!(max_depth(false), Some(1));
    assert_eq!(max_depth(true), None);
}

#[test]
fn scope_of_a_recursive_run_is_everything_below_the_root() {
    assert!(!entry_in_scope(&found("/src", EntryKind::Directory), true));
    assert!(entry_in_scope(&found("/src/a.txt", EntryKind::File), true));
    assert!(entry_in_scope(&found("/src/sub", EntryKind::Directory), true));
    assert!(entry_in_scope(&found("/src/sub/c.txt", EntryKind::File), true));
    assert!(entry_in_scope(&found("/src/sub/deep/er", EntryKind::Directory), true));
}

#[test]
fn scope_of_a_flat_run_is_the_files_in_the_root() {
    assert!(!entry_in_scope(&found("/src", EntryKind::Directory), false));
    assert!(entry_in_scope(&found("/src/a.txt", EntryKind::File), false));
    assert!(!entry_in_scope(&found("/src/sub", EntryKind::Directory), false));
    assert!(!entry_in_scope(&found("/src/sub/c.txt", EntryKind::File), false));
}

#[test]
fn partition_tells_directories_from_files_in_traversal_order() {
    let entries = tree();
    let (dirs, files) = partition(&entries, true);
    let dirs: Vec<&str> = dirs.iter().map(|e| e.relative()).collect();
    let files: Vec<&str> = files.iter().map(|e| e.relative()).collect();
    assert_eq!(dirs, vec!["sub"]);
    assert_eq!(files, vec!["a.txt", "b.psd", "sub/c.txt"]);
}

#[test]
fn directory_step_announces_itself_where_directories_are_shown() {
    let mut configured = options(true, false, ExecutionMode::Sequential);
    configured.show_dirs = true;
    let action = create_directories(&found("/src/sub", EntryKind::Directory), &configured);
    assert_eq!(
        action,
        step(EntryKind::Directory, "/src/sub", "/dst/sub", Step::Perform { announce: true })
    );
    assert_eq!(action.log_line(), Some(String::from("[DIR] /dst/sub")));
    configured.show_dirs = false;
    configured.show_files = true;
    let quiet = create_directories(&found("/src/sub", EntryKind::Directory), &configured);
    assert_eq!(quiet.step, Step::Perform { announce: false });
    assert_eq!(quiet.log_line(), None);
}

#[test]
fn file_step_announces_itself_where_files_are_shown() {
    let mut configured = options(true, false, ExecutionMode::Sequential);
    configured.show_files = true;
    let action = create_files(&found("/src/sub/c.txt", EntryKind::File), &configured);
    assert_eq!(
        action,
        step(EntryKind::File, "/src/sub/c.txt", "/dst/sub/c.txt", Step::Perform { announce: true })
    );
    assert_eq!(action.log_line(), Some(String::from("[FILE] /src/sub/c.txt -> /dst/sub/c.txt")));
    configured.show_files = false;
    configured.show_dirs = true;
    let quiet = create_files(&found("/src/sub/c.txt", EntryKind::File), &configured);
    assert_eq!(quiet.log_line(), None);
}

#[test]
fn dispatch_skips_what_is_excluded() {
    let configured = options(true, false, ExecutionMode::Concurrent);
    let skipped = dispatch(&found("/src/b.psd", EntryKind::File), &configured);
    assert_eq!(skipped, step(EntryKind::File, "/src/b.psd", "/dst/b.psd", Step::Skip));
    assert_eq!(skipped.log_line(), None);
    assert!(!skipped.mutates());
    let copied = dispatch(&found("/src/a.txt", EntryKind::File), &configured);
    assert_eq!(copied.step, Step::Perform { announce: false });
    let simulated = dispatch(&found("/src/b.psd", EntryKind::File), &options(true, true, ExecutionMode::Concurrent));
    assert_eq!(simulated.step, Step::Skip);
}

#[test]
fn destination_is_the_destination_root_joined_with_the_relative_path() {
    let mut configured = options(true, false, ExecutionMode::Sequential);
    configured.destination = String::from("backup/");
    let plan = run_copy(&configured, &tree());
    let steps = all_steps(&plan.directories, &plan.files);
    let destinations: Vec<&str> = steps.iter().map(|a| a.destination.as_str()).collect();
    assert_eq!(destinations, vec!["backup/sub", "backup/a.txt", "backup/b.psd", "backup/sub/c.txt"]);
}
