use magics::cli::{
    BevySchedule, Cli, DumpDefault, EnvironmentType, StartupAction, Verbosity, WindowMode,
    WindowSettings,
};
use magics::input::general::{
    bind_general_input, export_graph_finished_system, finished_toast, general_actions,
    handle_export_graph, saved_settings_toast, Effects, ExportFactorGraphAsGraphvizFinished,
    ExportPlan, GeneralAction, JustPressed, Key, ToastLevel, ToastOptions, UserInput,
};
use magics::min_len_vec::MinLenVecError;
use magics::radio::{in_range, update_link, Link, LinkAction};
use magics::schedule::{tick_iterations, Centered, GbpScheduleParams, Iteration};
use magics::text::{decimal_string, push_decimal, push_repeated};
use magics::theme::Flavour;
use magics::AppState;

fn cli() -> Cli {
    Cli {
        dump_default: None,
        dump_environment: None,
        simulations_dir: None,
        list_scenarios: false,
        initial_scenario: None,
        headless: false,
        fullscreen: false,
        working_dir: None,
        verbose: 0,
        width: None,
        height: None,
        record: false,
    }
}

fn nothing_pressed() -> JustPressed {
    JustPressed {
        cycle_theme: false,
        export_graph: false,
        screenshot: false,
        save_settings: false,
        quit_application: false,
        pause_play_simulation: false,
    }
}

fn no_effects() -> Effects {
    Effects {
        cycle_theme: false,
        export_graph: false,
        take_screenshot: false,
        save_settings: false,
        quit_application: false,
        toggle_pause: false,
    }
}

#[test]
fn verbosity_grows_with_the_flag() {
    let mut args = cli();
    assert_eq!(args.verbosity(), Verbosity::Silent);
    assert_eq!(args.verbosity(), Verbosity::default());
    args.verbose = 1;
    assert_eq!(args.verbosity(), Verbosity::Normal);
    args.verbose = 2;
    assert_eq!(args.verbosity(), Verbosity::Very);
    args.verbose = 3;
    assert_eq!(args.verbosity(), Verbosity::Ultra);
    args.verbose = 255;
    assert_eq!(args.verbosity(), Verbosity::Ultra);
}

#[test]
fn printing_wins_over_running() {
    let mut args = cli();
    assert_eq!(args.startup_action(), StartupAction::Run);
    args.list_scenarios = true;
    assert_eq!(args.startup_action(), StartupAction::ListScenarios);
    args.dump_environment = Some(EnvironmentType::Maze);
    assert_eq!(
        args.startup_action(),
        StartupAction::DumpEnvironment(EnvironmentType::Maze)
    );
    args.dump_default = Some(DumpDefault::Formation);
    assert_eq!(
        args.startup_action(),
        StartupAction::DumpDefault(DumpDefault::Formation)
    );
}

#[test]
fn window_follows_the_arguments() {
    let mut args = cli();
    assert_eq!(
        args.window_settings(1280, 720),
        WindowSettings {
            mode: WindowMode::Windowed,
            width: 1280,
            height: 720,
            resizable: true,
        }
    );
    args.fullscreen = true;
    args.width = Some(800);
    args.record = true;
    assert_eq!(
        args.window_settings(1280, 720),
        WindowSettings {
            mode: WindowMode::BorderlessFullscreen,
            width: 800,
            height: 720,
            resizable: false,
        }
    );
    args.height = Some(600);
    assert_eq!(args.window_settings(1280, 720).height, 600);
}

#[test]
fn enums_compare_as_declared() {
    assert!(DumpDefault::Config < DumpDefault::Formation);
    assert!(DumpDefault::Formation < DumpDefault::Environment);
    assert_ne!(BevySchedule::PreStartup, BevySchedule::Last);
    assert_eq!(BevySchedule::Update, BevySchedule::Update);
    assert_eq!(AppState::default(), AppState::LoadingSimulationData);
    assert_eq!(AppState::LoadingSimulationData.to_string(), "Loading");
    assert_eq!(AppState::Running.to_string(), "Running");
}

#[test]
fn themes_cycle() {
    assert_eq!(Flavour::Latte.next(), Flavour::Frappe);
    assert_eq!(Flavour::Frappe.next(), Flavour::Macchiato);
    assert_eq!(Flavour::Macchiato.next(), Flavour::Mocha);
    assert_eq!(Flavour::Mocha.next(), Flavour::Latte);
    assert_eq!(Flavour::Latte.next().next().next().next(), Flavour::Latte);
    assert_eq!(Flavour::Frappe.to_display_string(), "Frappe");
    assert_eq!(Flavour::Latte.to_display_string(), "Latte");
    assert_eq!(Flavour::Macchiato.to_display_string(), "Macchiato");
    assert_eq!(Flavour::Mocha.to_display_string(), "Mocha");
}

#[test]
fn actions_have_names_and_keys() {
    assert_eq!(GeneralAction::default(), GeneralAction::CycleTheme);
    assert_eq!(GeneralAction::CycleTheme.to_string(), "Cycle Theme");
    assert_eq!(GeneralAction::ExportGraph.to_string(), "Export Graph");
    assert_eq!(GeneralAction::ScreenShot.to_string(), "Take ScreenShot");
    assert_eq!(GeneralAction::SaveSettings.to_string(), "Save Settings");
    assert_eq!(
        GeneralAction::QuitApplication.to_string(),
        "Quit Application"
    );
    assert_eq!(
        GeneralAction::PausePlaySimulation.to_string(),
        "Pause/Play Simulation"
    );
    assert_eq!(
        bind_general_input(),
        vec![
            (GeneralAction::CycleTheme, UserInput::Single(Key::KeyT)),
            (GeneralAction::ExportGraph, UserInput::Single(Key::KeyG)),
            (GeneralAction::ScreenShot, UserInput::WithControl(Key::KeyP)),
            (
                GeneralAction::SaveSettings,
                UserInput::WithControl(Key::KeyS)
            ),
            (
                GeneralAction::QuitApplication,
                UserInput::WithControl(Key::KeyQ)
            ),
            (
                GeneralAction::PausePlaySimulation,
                UserInput::Single(Key::Space)
            ),
        ]
    );
    assert_eq!(GeneralAction::all().len(), 6);
    assert_eq!(
        GeneralAction::default_keyboard_input(GeneralAction::SaveSettings),
        UserInput::WithControl(Key::KeyS)
    );
}

#[test]
fn nothing_happens_while_a_binding_is_changed() {
    let all = JustPressed {
        cycle_theme: true,
        export_graph: true,
        screenshot: true,
        save_settings: true,
        quit_application: true,
        pause_play_simulation: true,
    };
    assert_eq!(general_actions(true, all), no_effects());
    assert_eq!(general_actions(false, nothing_pressed()), no_effects());
}

#[test]
fn theme_goes_before_export() {
    let all = JustPressed {
        cycle_theme: true,
        export_graph: true,
        screenshot: true,
        save_settings: true,
        quit_application: true,
        pause_play_simulation: true,
    };
    assert_eq!(
        general_actions(false, all),
        Effects {
            cycle_theme: true,
            export_graph: false,
            take_screenshot: true,
            save_settings: true,
            quit_application: true,
            toggle_pause: true,
        }
    );
    let export = JustPressed {
        export_graph: true,
        ..nothing_pressed()
    };
    assert_eq!(
        general_actions(false, export),
        Effects {
            export_graph: true,
            ..no_effects()
        }
    );
}

#[test]
fn export_is_planned() {
    match handle_export_graph(None) {
        ExportPlan::Nothing { event } => assert_eq!(
            event,
            ExportFactorGraphAsGraphvizFinished::Failure(
                "There are no factorgraphs in the world".to_string()
            )
        ),
        other => panic!("{:?}", other),
    }
    match handle_export_graph(Some("graph {\n}\n".to_string())) {
        ExportPlan::Write {
            event,
            dot_path,
            contents,
            dot_arguments,
        } => {
            assert_eq!(
                event,
                ExportFactorGraphAsGraphvizFinished::Success("factorgraphs.dot".to_string())
            );
            assert_eq!(dot_path, "factorgraphs.dot");
            assert_eq!(contents, "graph {\n}\n");
            assert_eq!(
                dot_arguments,
                vec!["-T", "png", "-o", "factorgraphs.png", "factorgraphs.dot"]
            );
        }
        other => panic!("{:?}", other),
    }
}

#[test]
fn the_user_is_told_how_the_export_ended() {
    let toast = export_graph_finished_system(&ExportFactorGraphAsGraphvizFinished::Success(
        "factorgraphs.dot".to_string(),
    ));
    assert_eq!(
        toast.caption,
        "successfully exported factorgraphs to ./\"factorgraphs.dot\""
    );
    assert_eq!(toast.level, ToastLevel::Info);
    assert_eq!(toast.options, ToastOptions::Usual);
    let toast = export_graph_finished_system(&ExportFactorGraphAsGraphvizFinished::Failure(
        "a \"b\"\n".to_string(),
    ));
    assert_eq!(
        toast.caption,
        "failed to export factorgraphs to ./\"a \\\"b\\\"\\n\""
    );
    assert_eq!(toast.level, ToastLevel::Error);
    let toast = finished_toast(true, "x");
    assert_eq!(toast.caption, "successfully exported factorgraphs to ./x");
    let toast = finished_toast(false, "");
    assert_eq!(toast.caption, "failed to export factorgraphs to ./");
    assert_eq!(toast.level, ToastLevel::Error);
}

#[test]
fn saving_is_acknowledged() {
    let toast = saved_settings_toast();
    assert_eq!(toast.caption, "saved settings to config.toml");
    assert_eq!(toast.level, ToastLevel::Success);
    assert_eq!(
        toast.options,
        ToastOptions::Custom {
            duration_ms: 500,
            show_progress_bar: false,
            closable: false
        }
    );
}

#[test]
fn numbers_are_written_in_decimal() {
    for n in [0u64, 1, 9, 10, 11, 99, 100, 101, 12345, 4294967295, u64::MAX] {
        assert_eq!(decimal_string(n), format!("{}", n));
    }
    let mut text = "n=".to_string();
    push_decimal(&mut text, 1050);
    assert_eq!(text, "n=1050");
    push_repeated(&mut text, "-", 3);
    push_repeated(&mut text, "─", 0);
    assert_eq!(text, "n=1050---");
}

#[test]
fn not_enough_elements_is_described() {
    assert_eq!(
        MinLenVecError::NotEnoughElements { min: 3, actual: 2 }.to_string(),
        "Not enough elements, expected at least 3, got 2"
    );
    assert_eq!(
        MinLenVecError::NotEnoughElements {
            min: usize::MAX,
            actual: 0
        }
        .to_string(),
        format!("Not enough elements, expected at least {}, got 0", usize::MAX)
    );
}

#[test]
fn links_follow_the_reach() {
    assert!(in_range(true, true, true));
    assert!(!in_range(false, true, true));
    assert!(!in_range(true, false, true));
    assert!(!in_range(true, true, false));
    for a in [false, true] {
        for b in [false, true] {
            for within in [false, true] {
                assert_eq!(in_range(a, b, within), in_range(b, a, within));
            }
        }
    }
    assert_eq!(
        update_link(Link::Missing, true),
        (Link::Active, LinkAction::Create)
    );
    assert_eq!(
        update_link(Link::Missing, false),
        (Link::Missing, LinkAction::Keep)
    );
    assert_eq!(
        update_link(Link::Active, true),
        (Link::Active, LinkAction::Keep)
    );
    assert_eq!(
        update_link(Link::Active, false),
        (Link::Inactive, LinkAction::Deactivate)
    );
    assert_eq!(
        update_link(Link::Inactive, true),
        (Link::Active, LinkAction::Reactivate)
    );
    assert_eq!(
        update_link(Link::Inactive, false),
        (Link::Inactive, LinkAction::Keep)
    );
}

#[test]
fn a_tick_runs_internal_before_external() {
    let (i, e) = (Iteration::Internal, Iteration::External);
    assert_eq!(
        tick_iterations::<Centered>(GbpScheduleParams {
            internal: 4,
            external: 2
        }),
        vec![i, i, e, i, e, i]
    );
    assert_eq!(
        tick_iterations::<Centered>(GbpScheduleParams {
            internal: 0,
            external: 2
        }),
        vec![e, e]
    );
    assert_eq!(
        tick_iterations::<Centered>(GbpScheduleParams {
            internal: 0,
            external: 0
        }),
        vec![]
    );
}
