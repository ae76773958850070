//! General actions: those that do not act on one robot or on the camera.
use vstd::prelude::*;
use vstd::string::StringExecFns;

verus! {

/// General actions that can be triggered either affecting the simulation or the
/// UI
#[derive(PartialEq, Eq, Clone, Copy, Hash, Debug, Structural)]
pub enum GeneralAction {
    /// Cycle between catppuccin themes
    CycleTheme,
    /// Export all factorgraphs as `graphviz` format
    ExportGraph,
    /// Take a screenshot of the primary window and save it to disk
    ScreenShot,
    /// Save the settings to disk
    SaveSettings,
    /// Quit the application, and end the program
    QuitApplication,
    /// Toggle the simulation time between paused and playing
    PausePlaySimulation,
}

impl Default for GeneralAction {
    fn default() -> (action: Self)
        ensures
            action == GeneralAction::CycleTheme,
    {
        GeneralAction::CycleTheme
    }
}

/// The keys that general actions are bound to.
#[derive(PartialEq, Eq, Clone, Copy, Hash, Debug, Structural)]
pub enum Key {
    KeyT,
    KeyG,
    KeyS,
    KeyP,
    KeyQ,
    Space,
}

/// What the user presses for an action: a key, alone or while the control
/// key is held down.
#[derive(PartialEq, Eq, Clone, Copy, Hash, Debug, Structural)]
pub enum UserInput {
    /// The key alone.
    Single(Key),
    /// The key while the control key is held down.
    WithControl(Key),
}

/// Whether the export of the factor graphs went well.
#[derive(Debug, PartialEq, Eq)]
pub enum ExportFactorGraphAsGraphvizFinished {
    /// The export was successful with a message
    Success(String),
    /// The export failed with a message
    Failure(String),
}

/// How serious a notice to the user is.
#[derive(PartialEq, Eq, Clone, Copy, Hash, Debug, Structural)]
pub enum ToastLevel {
    Info,
    Success,
    Error,
}

/// How a notice is shown.
#[derive(PartialEq, Eq, Clone, Copy, Hash, Debug, Structural)]
pub enum ToastOptions {
    /// As notices are usually shown.
    Usual,
    /// In a way of its own.
    Custom {
        /// For how many milliseconds the notice is shown.
        duration_ms: u64,
        /// Whether a bar shows the time that is left.
        show_progress_bar: bool,
        /// Whether the user can close the notice.
        closable: bool,
    },
}

/// A short notice that is shown to the user for a while.
#[derive(Debug)]
pub struct Toast {
    /// The text of the notice.
    pub caption: String,
    /// How serious the notice is.
    pub level: ToastLevel,
    /// How the notice is shown.
    pub options: ToastOptions,
}

/// What is to be done about an export of the factor graphs.
#[derive(Debug)]
pub enum ExportPlan {
    /// There is nothing to export: only the event is sent.
    Nothing {
        /// The event that reports the failure.
        event: ExportFactorGraphAsGraphvizFinished,
    },
    /// The description is written to a file and handed to GraphViz.
    Write {
        /// The event that reports the success.
        event: ExportFactorGraphAsGraphvizFinished,
        /// The file that the description is written to.
        dot_path: String,
        /// The description.
        contents: String,
        /// The arguments with which `dot` is run on the file.
        dot_arguments: Vec<String>,
    },
}

/// Which general actions the user has just asked for.
#[derive(PartialEq, Eq, Clone, Copy, Debug, Structural)]
pub struct JustPressed {
    pub cycle_theme: bool,
    pub export_graph: bool,
    pub screenshot: bool,
    pub save_settings: bool,
    pub quit_application: bool,
    pub pause_play_simulation: bool,
}

/// What the program does in answer to the user's input.
#[derive(PartialEq, Eq, Clone, Copy, Debug, Structural)]
pub struct Effects {
    /// Switch to the next theme.
    pub cycle_theme: bool,
    /// Export the factor graphs.
    pub export_graph: bool,
    /// Take a screenshot.
    pub take_screenshot: bool,
    /// Save the settings and tell the user so.
    pub save_settings: bool,
    /// End the program.
    pub quit_application: bool,
    /// Pause the simulation, or let it run again.
    pub toggle_pause: bool,
}

impl GeneralAction {
    /// The name of the action as the user interface shows it.
    pub open spec fn spec_name(self) -> Seq<char> {
        match self {
            GeneralAction::CycleTheme => "Cycle Theme"@,
            GeneralAction::ExportGraph => "Export Graph"@,
            GeneralAction::ScreenShot => "Take ScreenShot"@,
            GeneralAction::SaveSettings => "Save Settings"@,
            GeneralAction::QuitApplication => "Quit Application"@,
            GeneralAction::PausePlaySimulation => "Pause/Play Simulation"@,
        }
    }

    /// What the user presses for the action unless the binding is changed.
    pub open spec fn spec_default_keyboard_input(self) -> UserInput {
        match self {
            GeneralAction::CycleTheme => UserInput::Single(Key::KeyT),
            GeneralAction::ExportGraph => UserInput::Single(Key::KeyG),
            GeneralAction::SaveSettings => UserInput::WithControl(Key::KeyS),
            GeneralAction::ScreenShot => UserInput::WithControl(Key::KeyP),
            GeneralAction::QuitApplication => UserInput::WithControl(Key::KeyQ),
            GeneralAction::PausePlaySimulation => UserInput::Single(Key::Space),
        }
    }

    /// All actions, in the order of their declaration.
    pub open spec fn spec_all() -> Seq<GeneralAction> {
        seq![
            GeneralAction::CycleTheme,
            GeneralAction::ExportGraph,
            GeneralAction::ScreenShot,
            GeneralAction::SaveSettings,
            GeneralAction::QuitApplication,
            GeneralAction::PausePlaySimulation,
        ]
    }

    /// The name of the action as the user interface shows it.
    pub fn to_string(&self) -> (name: String)
        ensures
            name@ == self.spec_name(),
    {
        match self {
            Self::CycleTheme => "Cycle Theme",
            Self::ExportGraph => "Export Graph",
            Self::ScreenShot => "Take ScreenShot",
            Self::SaveSettings => "Save Settings",
            Self::QuitApplication => "Quit Application",
            Self::PausePlaySimulation => "Pause/Play Simulation",
        }.to_owned()
    }

    /// What the user presses for the action unless the binding is changed.
    pub fn default_keyboard_input(action: Self) -> (input: UserInput)
        ensures
            input == action.spec_default_keyboard_input(),
    {
        match action {
            Self::CycleTheme => UserInput::Single(Key::KeyT),
            Self::ExportGraph => UserInput::Single(Key::KeyG),
            Self::SaveSettings => UserInput::WithControl(Key::KeyS),
            Self::ScreenShot => UserInput::WithControl(Key::KeyP),
            Self::QuitApplication => UserInput::WithControl(Key::KeyQ),
            Self::PausePlaySimulation => UserInput::Single(Key::Space),
        }
    }

    /// All actions, in the order of their declaration.
    pub fn all() -> (actions: Vec<GeneralAction>)
        ensures
            actions@ == Self::spec_all(),
    {
        let actions = vec![
            GeneralAction::CycleTheme,
            GeneralAction::ExportGraph,
            GeneralAction::ScreenShot,
            GeneralAction::SaveSettings,
            GeneralAction::QuitApplication,
            GeneralAction::PausePlaySimulation,
        ];
        assert(actions@ =~= Self::spec_all());
        actions
    }
}

/// The bindings that are in force when the program starts: each action with
/// its default input, in the order of the actions.
pub fn bind_general_input() -> (bindings: Vec<(GeneralAction, UserInput)>)
    ensures
        bindings@.len() == GeneralAction::spec_all().len(),
        forall|i: int|
            0 <= i < bindings@.len() ==> (#[trigger] bindings@[i]).0 == GeneralAction::spec_all()[i]
                && bindings@[i].1 == GeneralAction::spec_all()[i].spec_default_keyboard_input(),
{
    let actions = GeneralAction::all();
    let mut bindings: Vec<(GeneralAction, UserInput)> = Vec::new();
    let mut next: usize = 0;
    while next < actions.len()
        invariant
            next <= actions@.len(),
            actions@ == GeneralAction::spec_all(),
            bindings@.len() == next,
            forall|i: int|
                0 <= i < next ==> (#[trigger] bindings@[i]).0 == GeneralAction::spec_all()[i]
                    && bindings@[i].1
                    == GeneralAction::spec_all()[i].spec_default_keyboard_input(),
        decreases actions@.len() - next,
    {
        let action = actions[next];
        bindings.push((action, GeneralAction::default_keyboard_input(action)));
        next += 1;
    }
    bindings
}

/// What the program does for the actions in `pressed`. While the user
/// changes a key binding (`changing_binding`) no action is taken. The theme
/// is cycled before a graph is exported: where both are asked for at once,
/// only the theme is cycled.
pub open spec fn spec_effects(changing_binding: bool, pressed: JustPressed) -> Effects {
    if changing_binding {
        Effects {
            cycle_theme: false,
            export_graph: false,
            take_screenshot: false,
            save_settings: false,
            quit_application: false,
            toggle_pause: false,
        }
    } else {
        Effects {
            cycle_theme: pressed.cycle_theme,
            export_graph: !pressed.cycle_theme && pressed.export_graph,
            take_screenshot: pressed.screenshot,
            save_settings: pressed.save_settings,
            quit_application: pressed.quit_application,
            toggle_pause: pressed.pause_play_simulation,
        }
    }
}

/// What the program does for the actions in `pressed`.
pub fn general_actions(changing_binding: bool, pressed: JustPressed) -> (effects: Effects)
    ensures
        effects == spec_effects(changing_binding, pressed),
{
    let mut effects = Effects {
        cycle_theme: false,
        export_graph: false,
        take_screenshot: false,
        save_settings: false,
        quit_application: false,
        toggle_pause: false,
    };
    if changing_binding {
        return effects;
    }
    if pressed.cycle_theme {
        effects.cycle_theme = true;
    } else if pressed.export_graph {
        effects.export_graph = true;
    }
    if pressed.quit_application {
        effects.quit_application = true;
    }
    if pressed.save_settings {
        effects.save_settings = true;
    }
    if pressed.pause_play_simulation {
        effects.toggle_pause = true;
    }
    if pressed.screenshot {
        effects.take_screenshot = true;
    }
    effects
}

/// The notice that tells the user that the settings were saved. It is shown
/// for half a second.
pub fn saved_settings_toast() -> (toast: Toast)
    ensures
        toast.caption@ == "saved settings to config.toml"@,
        toast.level == ToastLevel::Success,
        toast.options == (ToastOptions::Custom {
            duration_ms: 500,
            show_progress_bar: false,
            closable: false,
        }),
{
    Toast {
        caption: "saved settings to config.toml".to_owned(),
        level: ToastLevel::Success,
        options: ToastOptions::Custom {
            duration_ms: 500,
            show_progress_bar: false,
            closable: false,
        },
    }
}

/// `text` as `std` writes a string for debugging: between double quotes, and
/// with an escape in place of each character that cannot stand there as it
/// is.
pub uninterp spec fn debug_quoted(text: Seq<char>) -> Seq<char>;

/// Writes `text` as `std` writes a string for debugging, which is what the
/// `Debug` implementation of `str` does. The result depends on the characters
/// of `text` alone; nothing else is claimed of it here.
#[verifier::external_body]
fn debug_quote(text: &str) -> (quoted: String)
    ensures
        quoted@ == debug_quoted(text@),
{
    format!("{:#?}", text)
}

/// The text of the notice for an export that went well (`success`) or not,
/// where `quoted_path` is what the event carries, written for debugging.
pub open spec fn finished_caption(success: bool, quoted_path: Seq<char>) -> Seq<char> {
    if success {
        "successfully exported factorgraphs to ./"@ + quoted_path
    } else {
        "failed to export factorgraphs to ./"@ + quoted_path
    }
}

/// The notice for an export that went well (`success`) or not, where
/// `quoted_path` is what the event carries, written for debugging: for
/// information after a success, an error after a failure.
pub fn finished_toast(success: bool, quoted_path: &str) -> (toast: Toast)
    ensures
        toast.caption@ == finished_caption(success, quoted_path@),
        toast.level == if success {
            ToastLevel::Info
        } else {
            ToastLevel::Error
        },
        toast.options == ToastOptions::Usual,
{
    let mut caption = if success {
        "successfully exported factorgraphs to ./".to_owned()
    } else {
        "failed to export factorgraphs to ./".to_owned()
    };
    caption.append(quoted_path);
    Toast {
        caption,
        level: if success {
            ToastLevel::Info
        } else {
            ToastLevel::Error
        },
        options: ToastOptions::Usual,
    }
}

/// The notice that tells the user how an export of the factor graphs ended.
pub fn export_graph_finished_system(event: &ExportFactorGraphAsGraphvizFinished) -> (toast: Toast)
    ensures
        toast.options == ToastOptions::Usual,
        match *event {
            ExportFactorGraphAsGraphvizFinished::Success(path) => toast.level == ToastLevel::Info
                && toast.caption@ == finished_caption(true, debug_quoted(path@)),
            ExportFactorGraphAsGraphvizFinished::Failure(path) => toast.level == ToastLevel::Error
                && toast.caption@ == finished_caption(false, debug_quoted(path@)),
        },
{
    match event {
        ExportFactorGraphAsGraphvizFinished::Success(path) => {
            let quoted = debug_quote(path.as_str());
            finished_toast(true, quoted.as_str())
        },
        ExportFactorGraphAsGraphvizFinished::Failure(path) => {
            let quoted = debug_quote(path.as_str());
            finished_toast(false, quoted.as_str())
        },
    }
}

/// Plans the export of the description `output` of the factor graphs. Where
/// there is none, the failure is reported and nothing else is done. Else the
/// description goes to `factorgraphs.dot`, and `dot` is asked to draw that
/// file into `factorgraphs.png`.
pub fn handle_export_graph(output: Option<String>) -> (plan: ExportPlan)
    ensures
        match output {
            None => plan matches ExportPlan::Nothing {
                event: ExportFactorGraphAsGraphvizFinished::Failure(message),
            } && message@ == "There are no factorgraphs in the world"@,
            Some(text) => plan matches ExportPlan::Write {
                event: ExportFactorGraphAsGraphvizFinished::Success(path),
                dot_path,
                contents,
                dot_arguments,
            } && path@ == "factorgraphs.dot"@ && dot_path@ == "factorgraphs.dot"@ && contents
                == text && dot_arguments@.len() == 5 && dot_arguments@[0]@ == "-T"@
                && dot_arguments@[1]@ == "png"@ && dot_arguments@[2]@ == "-o"@
                && dot_arguments@[3]@ == "factorgraphs.png"@ && dot_arguments@[4]@
                == "factorgraphs.dot"@,
        },
{
    let Some(output) = output else {
        return ExportPlan::Nothing {
            event: ExportFactorGraphAsGraphvizFinished::Failure(
                "There are no factorgraphs in the world".to_owned(),
            ),
        };
    };
    let mut dot_arguments: Vec<String> = Vec::new();
    dot_arguments.push("-T".to_owned());
    dot_arguments.push("png".to_owned());
    dot_arguments.push("-o".to_owned());
    dot_arguments.push("factorgraphs.png".to_owned());
    dot_arguments.push("factorgraphs.dot".to_owned());
    ExportPlan::Write {
        event: ExportFactorGraphAsGraphvizFinished::Success("factorgraphs.dot".to_owned()),
        dot_path: "factorgraphs.dot".to_owned(),
        contents: output,
        dot_arguments,
    }
}

} // verus!
