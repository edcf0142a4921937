use method_studio::assemble::merge_namespace;
use method_studio::assemble::collision_warning_message;
use method_studio::engine::build_engine_status;
use method_studio::engine::build_unknown_engine_message;
use method_studio::engine::interpreter_missing_message;
use method_studio::engine::wrapper_missing_message;
use method_studio::json::JsonValue;
use method_studio::engine::engine_result_from;
use method_studio::engine::first_line;
use method_studio::engine::script_file_name;
use method_studio::engine::trim_ascii;
use method_studio::engine::wrapper_segments;
use method_studio::engine::Engine;
use method_studio::locate::bundled_python_segments;
use method_studio::locate::bundled_resource_candidates;
use method_studio::locate::bundled_rscript_segments;
use method_studio::locate::engines_resource_candidates;
use method_studio::locate::first_existing;
use method_studio::locate::pick_python_dir;
use method_studio::locate::rscript_fallback_paths;
use method_studio::locate::walkup_limit;
use method_studio::locate::windows_local_app_data_var;
use method_studio::locate::windows_program_files_var;
use method_studio::locate::windows_python_entry_segments;
use method_studio::locate::windows_python_root_segments;
use method_studio::locate::windows_r_root_segments;
use method_studio::locate::windows_rscript_entry_segments;
use method_studio::packages::missing_packages;
use method_studio::packages::pip_install_args;
use method_studio::packages::python_package_check_script;
use method_studio::packages::r_install_script;
use method_studio::packages::r_package_check_script;
use method_studio::packages::r_required_packages;
use method_studio::storage::dataset_extension;
use method_studio::storage::dataset_file_name;
use method_studio::storage::dataset_not_found_message;
use method_studio::storage::is_dataset_extension;
use method_studio::storage::sort_datasets;
use method_studio::storage::Dataset;

#[test]
fn wrapper_paths_per_engine() {
    assert_eq!(wrapper_segments(Engine::R), vec!["r-scripts", "wrapper.R"]);
    assert_eq!(
        wrapper_segments(Engine::Python),
        vec!["python-scripts", "wrapper.py"]
    );
    assert_eq!(script_file_name("ttest", Engine::R), "ttest.R");
    assert_eq!(script_file_name("ttest", Engine::Python), "ttest.py");
}

#[test]
fn discovery_candidates_in_probe_order() {
    let engines = engines_resource_candidates();
    assert_eq!(engines[0], vec!["_up_", "_up_", "_up_", "engines"]);
    assert_eq!(engines[1], vec!["engines"]);
    let bundled = bundled_resource_candidates();
    assert_eq!(bundled.len(), 3);
    assert_eq!(bundled[2], vec!["bundled-engines"]);
    assert_eq!(walkup_limit(), 10);
    assert_eq!(
        bundled_rscript_segments("macos", "aarch64"),
        vec!["macos-arm64", "r", "bin", "Rscript"]
    );
    assert_eq!(
        bundled_python_segments("windows", "x86_64"),
        vec!["windows-x64", "python", "python.exe"]
    );
    assert_eq!(
        bundled_python_segments("macos", "x86_64"),
        vec!["macos-x64", "python", "bin", "python3"]
    );
}

#[test]
fn first_existing_takes_the_first_hit() {
    assert_eq!(first_existing(&vec![false, true, true]), Some(1));
    assert_eq!(first_existing(&vec![true]), Some(0));
    assert_eq!(first_existing(&vec![false, false]), None);
    assert_eq!(first_existing(&vec![]), None);
}

#[test]
fn python_dir_scan_needs_prefix_and_site_packages() {
    let names = vec![
        "tcl8.6".to_string(),
        "python3.11".to_string(),
        "python3.12".to_string(),
    ];
    assert_eq!(pick_python_dir(&names, &vec![true, true, true]), Some(1));
    // An entry without site-packages beneath it is skipped for the next.
    assert_eq!(pick_python_dir(&names, &vec![true, false, true]), Some(2));
    assert_eq!(pick_python_dir(&names, &vec![true, false, false]), None);
    assert_eq!(pick_python_dir(&vec!["lib".to_string()], &vec![true]), None);
}

#[test]
fn windows_install_scan_rules() {
    assert_eq!(windows_program_files_var(), "ProgramFiles");
    assert_eq!(windows_local_app_data_var(), "LOCALAPPDATA");
    assert_eq!(windows_r_root_segments(), vec!["R"]);
    assert_eq!(windows_rscript_entry_segments(), vec!["bin", "Rscript.exe"]);
    assert_eq!(windows_python_root_segments(), vec!["Programs", "Python"]);
    assert_eq!(windows_python_entry_segments(), vec!["python.exe"]);
}

#[test]
fn fallback_paths_exist_only_where_known() {
    assert_eq!(rscript_fallback_paths("macos").len(), 5);
    assert!(rscript_fallback_paths("linux").is_empty());
}

#[test]
fn package_probe_scripts_are_exact() {
    assert_eq!(
        r_package_check_script("lavaan"),
        "if (!requireNamespace('lavaan', quietly = TRUE)) quit(status = 1)"
    );
    assert_eq!(
        python_package_check_script("pandas"),
        "import importlib.util; exit(0 if importlib.util.find_spec('pandas') else 1)"
    );
}

#[test]
fn missing_packages_keep_order() {
    let pkgs = vec!["a".to_string(), "b".to_string(), "c".to_string()];
    let present = vec![true, false, false];
    assert_eq!(
        missing_packages(&pkgs, &present),
        vec!["b".to_string(), "c".to_string()]
    );
    assert!(missing_packages(&pkgs, &vec![true, true, true]).is_empty());
}

#[test]
fn install_command_lines_are_exact() {
    let pkgs = r_required_packages();
    assert_eq!(
        r_install_script(&pkgs),
        "install.packages(c('jsonlite', 'psych', 'lavaan', 'lme4', 'boot', 'mediation'), repos = 'https://cloud.r-project.org/')"
    );
    let two = vec!["pandas".to_string(), "numpy".to_string()];
    assert_eq!(
        pip_install_args("macos", &two),
        vec!["-m", "pip", "install", "--user", "pandas", "numpy"]
    );
    let win = pip_install_args("windows", &two);
    assert_eq!(win.len(), 12);
    assert_eq!(win[4], "--trusted-host");
    assert_eq!(win[5], "pypi.org");
}

#[test]
fn engine_results_default_missing_exit_codes() {
    let r = engine_result_from("out".to_string(), "err".to_string(), None, false);
    assert_eq!(r.exit_code, -1);
    assert!(!r.success);
    let r2 = engine_result_from(String::new(), String::new(), Some(0), true);
    assert_eq!(r2.exit_code, 0);
    assert!(r2.success);
}

#[test]
fn engine_status_reads_version_lines() {
    let status = build_engine_status(
        Some((true, "R scripting front-end version 4.3.2\nextra".to_string())),
        Some((true, "  Python 3.12.1\n".to_string())),
    );
    assert!(status.r_available);
    assert_eq!(
        status.r_version.as_deref(),
        Some("R scripting front-end version 4.3.2")
    );
    assert_eq!(status.python_version.as_deref(), Some("Python 3.12.1"));
    let none = build_engine_status(None, Some((false, String::new())));
    assert!(!none.r_available);
    assert!(!none.python_available);
    assert!(none.r_version.is_none());
    assert!(none.python_version.is_none());
}

#[test]
fn trim_and_first_line_behave() {
    assert_eq!(trim_ascii("  spaced out \t\r\n"), "spaced out");
    assert_eq!(trim_ascii(" \t \n"), "");
    assert_eq!(trim_ascii("solid"), "solid");
    assert_eq!(first_line("one\ntwo\nthree"), "one");
    assert_eq!(first_line("single"), "single");
    assert_eq!(first_line(""), "");
}

#[test]
fn dataset_names_and_extensions() {
    assert_eq!(dataset_extension("json"), "json");
    assert_eq!(dataset_extension("csv"), "csv");
    assert_eq!(dataset_extension("parquet"), "csv");
    assert_eq!(dataset_file_name("survey", "csv"), "survey.csv");
    assert!(is_dataset_extension("csv"));
    assert!(is_dataset_extension("json"));
    assert!(!is_dataset_extension("txt"));
    assert_eq!(
        dataset_not_found_message("survey"),
        "Dataset 'survey' not found"
    );
}

#[test]
fn dataset_listings_sort_by_name() {
    let mk = |name: &str| Dataset {
        name: name.to_string(),
        path: format!("/data/{}.csv", name),
        size: 1,
        modified: None,
    };
    let sorted = sort_datasets(vec![mk("zeta"), mk("alpha"), mk("midway"), mk("alpha2")]);
    let names: Vec<&str> = sorted.iter().map(|d| d.name.as_str()).collect();
    assert_eq!(names, vec!["alpha", "alpha2", "midway", "zeta"]);
}

#[test]
fn collision_warnings_print_their_source() {
    let cols = vec![("x".to_string(), vec![JsonValue::Null])];
    let vars = vec![("x".to_string(), JsonValue::Null)];
    let options = JsonValue::Null;
    let derived: Vec<(String, JsonValue)> = Vec::new();
    let (_, warns) = merge_namespace(&cols, &vars, &options, &derived);
    assert_eq!(warns.len(), 1);
    assert_eq!(
        collision_warning_message(&warns[0]),
        "[engine] WARNING: variable key 'x' collides with existing data key; overwriting."
    );
}

#[test]
fn dispatch_error_messages_name_their_subject() {
    assert_eq!(
        build_unknown_engine_message("julia"),
        "Unknown engine 'julia'. Expected 'r' or 'python'."
    );
    assert_eq!(
        interpreter_missing_message(Engine::R),
        "Rscript not found. Please install R first."
    );
    assert_eq!(
        interpreter_missing_message(Engine::Python),
        "Python not found. Please install Python first."
    );
    assert_eq!(
        wrapper_missing_message(Engine::R, "/a/wrapper.R"),
        "R wrapper not found at: /a/wrapper.R"
    );
}
