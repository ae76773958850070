//! What the command line asks for, and what the program does about it.
use vstd::prelude::*;

verus! {

/// Which type of configuration data to dump to stdout
#[derive(Debug, Copy, Clone, PartialEq, Eq, PartialOrd, Ord, Structural)]
pub enum DumpDefault {
    /// Config
    Config,
    /// Robot formation
    Formation,
    /// Environment
    Environment,
}

/// The environments that come with the program.
#[derive(Debug, Copy, Clone, PartialEq, Eq, Structural)]
pub enum EnvironmentType {
    Intersection,
    Circle,
    Intermediate,
    Complex,
    Maze,
    Test,
}

/// Verbosity level
#[derive(Debug, Clone, Copy, PartialEq, Eq, Structural)]
pub enum Verbosity {
    /// Be silent about most things
    Silent,
    /// Log normal events
    Normal,
    /// Trace a log of events
    Very,
    /// Log everything!
    Ultra,
}

impl Default for Verbosity {
    fn default() -> (verbosity: Self)
        ensures
            verbosity == Verbosity::Silent,
    {
        Verbosity::Silent
    }
}

/// The stages of a frame at which a system can be run.
#[derive(Debug, Clone, Copy, PartialEq, Eq, Structural)]
pub enum BevySchedule {
    PreStartup,
    Startup,
    PostStartup,
    PreUpdate,
    Update,
    PostUpdate,
    FixedUpdate,
    Last,
}

/// All the flags and arguments that can be passed to the program from a
/// shell.
#[derive(Debug)]
pub struct Cli {
    /// Default configuration information to dump to stdout
    pub dump_default: Option<DumpDefault>,
    /// Dump a specific environment to stdout
    pub dump_environment: Option<EnvironmentType>,
    /// Path to directory with simulations to load
    pub simulations_dir: Option<String>,
    /// List all detected simulations
    pub list_scenarios: bool,
    /// Initial scenario to load. If not specified, the first scenario in
    /// lexicographical order is loaded from the simulations directory
    pub initial_scenario: Option<String>,
    /// Run the app without a window for rendering the environment
    pub headless: bool,
    /// Start the app in fullscreen mode
    pub fullscreen: bool,
    /// Specify an initial working directory
    pub working_dir: Option<String>,
    /// Increases logging verbosity each use for up to 3 times
    pub verbose: u8,
    /// Width of the graphical window
    pub width: Option<u32>,
    /// Height of the graphical window
    pub height: Option<u32>,
    /// Record image sequences of the running simulation
    pub record: bool,
}

/// How the window covers the screen.
#[derive(Debug, Clone, Copy, PartialEq, Eq, Structural)]
pub enum WindowMode {
    /// The window covers the whole screen, without a border.
    BorderlessFullscreen,
    /// The window is one among others.
    Windowed,
}

/// The window that the simulation opens.
#[derive(Debug, Clone, Copy, PartialEq, Eq, Structural)]
pub struct WindowSettings {
    pub mode: WindowMode,
    /// Width in pixels.
    pub width: u32,
    /// Height in pixels.
    pub height: u32,
    /// Whether the user can resize the window.
    pub resizable: bool,
}

/// What the program does once the command line is read.
#[derive(Debug, Clone, Copy, PartialEq, Eq, Structural)]
pub enum StartupAction {
    /// Print the default of the given configuration data and leave.
    DumpDefault(DumpDefault),
    /// Print the given environment and leave.
    DumpEnvironment(EnvironmentType),
    /// Print the scenarios that were found and leave.
    ListScenarios,
    /// Run the simulation.
    Run,
}

impl Verbosity {
    /// The verbosity for a flag that was given `count` times.
    pub open spec fn spec_from_count(count: u8) -> Verbosity {
        if count == 0 {
            Verbosity::Silent
        } else if count == 1 {
            Verbosity::Normal
        } else if count == 2 {
            Verbosity::Very
        } else {
            Verbosity::Ultra
        }
    }
}

impl Verbosity {
    /// The verbosity for a flag that was given `count` times: each use makes
    /// the program say more, up to three uses.
    pub fn from_count(count: u8) -> (verbosity: Verbosity)
        ensures
            verbosity == Verbosity::spec_from_count(count),
    {
        match count {
            0 => Verbosity::Silent,
            1 => Verbosity::Normal,
            2 => Verbosity::Very,
            _ => Verbosity::Ultra,
        }
    }
}

impl Cli {
    /// What the program does for these arguments. A request to print
    /// something wins over running the simulation: first the defaults, then
    /// an environment, then the list of scenarios.
    pub open spec fn spec_startup_action(self) -> StartupAction {
        match (self.dump_default, self.dump_environment) {
            (Some(dump), _) => StartupAction::DumpDefault(dump),
            (None, Some(environment)) => StartupAction::DumpEnvironment(environment),
            (None, None) => if self.list_scenarios {
                StartupAction::ListScenarios
            } else {
                StartupAction::Run
            },
        }
    }

    /// Get the set verbosity level
    pub fn verbosity(&self) -> (verbosity: Verbosity)
        ensures
            verbosity == Verbosity::spec_from_count(self.verbose),
    {
        Verbosity::from_count(self.verbose)
    }

    /// What the program does for these arguments.
    pub fn startup_action(&self) -> (action: StartupAction)
        ensures
            action == self.spec_startup_action(),
    {
        if let Some(dump) = self.dump_default {
            return StartupAction::DumpDefault(dump);
        }
        if let Some(environment) = self.dump_environment {
            return StartupAction::DumpEnvironment(environment);
        }
        if self.list_scenarios {
            return StartupAction::ListScenarios;
        }
        StartupAction::Run
    }

    /// The window for these arguments: full screen if asked for, of the
    /// given size where one is given and of the default size otherwise, and
    /// of fixed size while a recording runs.
    pub fn window_settings(
        &self,
        default_width: u32,
        default_height: u32,
    ) -> (window: WindowSettings)
        ensures
            window.mode == if self.fullscreen {
                WindowMode::BorderlessFullscreen
            } else {
                WindowMode::Windowed
            },
            window.width == match self.width {
                Some(width) => width,
                None => default_width,
            },
            window.height == match self.height {
                Some(height) => height,
                None => default_height,
            },
            window.resizable == !self.record,
    {
        let mode = if self.fullscreen {
            WindowMode::BorderlessFullscreen
        } else {
            WindowMode::Windowed
        };
        let width = match self.width {
            Some(width) => width,
            None => default_width,
        };
        let height = match self.height {
            Some(height) => height,
            None => default_height,
        };
        WindowSettings { mode, width, height, resizable: !self.record }
    }
}

} // verus!
