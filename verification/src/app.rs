//! The decisions of the terminal front end: which screen a command opens,
//! when the application stops, and how the screens answer keys.
use vstd::prelude::*;
use vstd::string::StringExecFns;
use crate::error::{spec_error_message, AppError};
use crate::text::{decimal, string_of, usize_to_string};

verus! {

/// The screens of the application.
#[derive(Copy, Clone, Debug, PartialEq, Eq, Structural)]
pub enum Screen {
    Help,
    Init,
    Install,
    Generate,
    Test,
}

/// The screen that the first argument opens: `init`, `install`, `generate`
/// and `test` open theirs; anything else, or no argument, opens help.
pub fn select_screen(arg: Option<&str>) -> (r: Screen)
    ensures
        r == (match arg {
            Some(a) => if a@ == "init"@ {
                Screen::Init
            } else if a@ == "install"@ {
                Screen::Install
            } else if a@ == "generate"@ {
                Screen::Generate
            } else if a@ == "test"@ {
                Screen::Test
            } else {
                Screen::Help
            },
            None => Screen::Help,
        }),
{
    match arg {
        Some(a) => {
            let a = string_of(a);
            if a == string_of("init") {
                Screen::Init
            } else if a == string_of("install") {
                Screen::Install
            } else if a == string_of("generate") {
                Screen::Generate
            } else if a == string_of("test") {
                Screen::Test
            } else {
                Screen::Help
            }
        },
        None => Screen::Help,
    }
}

/// The keys the screens tell apart.
#[derive(Copy, Clone, Debug, PartialEq, Eq, Structural)]
pub enum Key {
    Enter,
    Esc,
    Other,
}

/// What the application does with a key before the screen sees it: Esc asks
/// to leave.
pub fn global_key(key: Key) -> (r: Result<(), AppError>)
    ensures
        key == Key::Esc ==> r matches Err(AppError::Exit),
        key != Key::Esc ==> r is Ok,
{
    match key {
        Key::Esc => Err(AppError::Exit),
        _ => Ok(()),
    }
}

/// The outcome of handling an event: a request to leave when either the
/// application or the screen asked to leave; other errors are not reported.
pub fn combine_event_results(global: &Result<(), AppError>, screen: &Result<(), AppError>) -> (r: Result<(), AppError>)
    ensures
        (global matches Err(AppError::Exit)) || (screen matches Err(AppError::Exit)) ==> r matches Err(AppError::Exit),
        !((global matches Err(AppError::Exit)) || (screen matches Err(AppError::Exit))) ==> r is Ok,
{
    let g = match global {
        Err(e) => e.is_exit(),
        Ok(_) => false,
    };
    let s = match screen {
        Err(e) => e.is_exit(),
        Ok(_) => false,
    };
    if g || s {
        Err(AppError::Exit)
    } else {
        Ok(())
    }
}

/// The state of the application: whether it is to stop, the error it shows,
/// and the screen it shows.
pub struct App {
    exit: bool,
    error: Option<String>,
    screen: Screen,
}

/// The view of the application state.
pub struct AppView {
    pub exit: bool,
    pub error: Option<Seq<char>>,
    pub screen: Screen,
}

impl View for App {
    type V = AppView;

    closed spec fn view(&self) -> AppView {
        AppView {
            exit: self.exit,
            error: match self.error {
                Some(e) => Some(e@),
                None => None,
            },
            screen: self.screen,
        }
    }
}

impl App {
    /// An application on the help screen, without error.
    pub fn new() -> (r: Self)
        ensures
            r@ == (AppView { exit: false, error: None, screen: Screen::Help }),
    {
        App { exit: false, error: None, screen: Screen::Help }
    }

    /// Opens the screen that the first argument names.
    pub fn open(&mut self, arg: Option<&str>)
        ensures
            final(self)@ == (AppView { screen: select_screen_spec(arg), ..old(self)@ }),
    {
        self.screen = select_screen(arg);
    }

    /// Records the outcome of a step (the setup of the screen, or handling an
    /// event): an error is shown and stops the application.
    pub fn record(&mut self, outcome: Result<(), AppError>)
        ensures
            match outcome {
                Ok(_) => final(self)@ == old(self)@,
                Err(e) => final(self)@ == (AppView {
                    exit: true,
                    error: Some(spec_error_message(e)),
                    ..old(self)@
                }),
            },
    {
        match outcome {
            Ok(_) => {},
            Err(e) => {
                self.error = Some(e.message());
                self.exit = true;
            },
        }
    }

    /// Whether the application is to stop.
    pub fn should_exit(&self) -> (r: bool)
        ensures
            r == self@.exit,
    {
        self.exit
    }

    /// The error shown, if any.
    pub fn error(&self) -> (r: Option<&String>)
        ensures
            match r {
                Some(e) => self@.error == Some(e@),
                None => self@.error is None,
            },
    {
        match &self.error {
            Some(e) => Some(e),
            None => None,
        }
    }

    /// The screen shown.
    pub fn screen(&self) -> (r: Screen)
        ensures
            r == self@.screen,
    {
        self.screen
    }
}

/// The screen that the first argument opens.
pub open spec fn select_screen_spec(arg: Option<&str>) -> Screen {
    match arg {
        Some(a) => if a@ == "init"@ {
            Screen::Init
        } else if a@ == "install"@ {
            Screen::Install
        } else if a@ == "generate"@ {
            Screen::Generate
        } else if a@ == "test"@ {
            Screen::Test
        } else {
            Screen::Help
        },
        None => Screen::Help,
    }
}

/// What the init screen does with a key.
#[derive(Copy, Clone, Debug, PartialEq, Eq, Structural)]
pub enum InitAction {
    /// Leave the application.
    Exit,
    /// Write the default configuration.
    CreateConfig,
    /// Nothing.
    Nothing,
    /// Hand the key to the text field.
    Input,
}

/// The state of the init screen: whether the configuration has been written
/// and whether one existed before.
pub struct InitWidget {
    pub created_config: bool,
    pub config_exists: bool,
}

impl InitWidget {
    /// A screen before anything is written.
    pub fn new(config_exists: bool) -> (r: Self)
        ensures
            r.created_config == false,
            r.config_exists == config_exists,
    {
        InitWidget { created_config: false, config_exists }
    }

    /// Answers a key, given the first line of the text field: once the
    /// configuration is written any key leaves; Enter with `n` leaves, with
    /// `y` writes the configuration; other keys go to the text field.
    pub fn handle_key(&mut self, key: Key, first_line: &str) -> (r: InitAction)
        ensures
            old(self).created_config ==> r == InitAction::Exit && final(self).created_config,
            !old(self).created_config && key == Key::Enter && first_line@ == "n"@ ==> r
                == InitAction::Exit && !final(self).created_config,
            !old(self).created_config && key == Key::Enter && first_line@ == "y"@ ==> r
                == InitAction::CreateConfig && final(self).created_config,
            !old(self).created_config && key == Key::Enter && first_line@ != "n"@ && first_line@
                != "y"@ ==> r == InitAction::Nothing && !final(self).created_config,
            !old(self).created_config && key != Key::Enter ==> r == InitAction::Input
                && !final(self).created_config,
            final(self).config_exists == old(self).config_exists,
    {
        if self.created_config {
            return InitAction::Exit;
        }
        proof {
            reveal_strlit("n");
            reveal_strlit("y");
            assert("n"@[0] != "y"@[0]);
        }
        match key {
            Key::Enter => {
                let line = string_of(first_line);
                if line == string_of("n") {
                    InitAction::Exit
                } else if line == string_of("y") {
                    self.created_config = true;
                    InitAction::CreateConfig
                } else {
                    InitAction::Nothing
                }
            },
            _ => InitAction::Input,
        }
    }

    /// The question the screen asks.
    pub fn confirm_message(&self) -> (r: &'static str)
        ensures
            self.config_exists ==> r@
                == "flint.toml already exists in this directory. Would you like to overwrite it? (y/n)"@,
            !self.config_exists ==> r@ == "Would you like to continue with creating flint.toml? (y/n)"@,
    {
        if self.config_exists {
            "flint.toml already exists in this directory. Would you like to overwrite it? (y/n)"
        } else {
            "Would you like to continue with creating flint.toml? (y/n)"
        }
    }
}

/// The title over the languages found, with the number of unsupported ones.
pub fn languages_title(unsupported: usize) -> (r: String)
    ensures
        r@ == "We found the following languages in this directory ("@ + decimal(unsupported as nat)
            + " unsupported)"@,
{
    let mut r = string_of("We found the following languages in this directory (");
    let n = usize_to_string(unsupported);
    r.append(n.as_str());
    r.append(" unsupported)");
    r
}

/// The message logged when a plugin has written its configuration files.
pub fn generated_message(id: &str) -> (r: String)
    ensures
        r@ == "Generated "@ + id@ + " config successfully"@,
{
    let mut r = string_of("Generated ");
    r.append(id);
    r.append(" config successfully");
    r
}

/// The message logged when a test command cannot be started.
pub fn command_failure_message(program: &str, error: &str) -> (r: String)
    ensures
        r@ == "Failed to execute command '"@ + program@ + "': "@ + error@,
{
    let mut r = string_of("Failed to execute command '");
    r.append(program);
    r.append("': ");
    r.append(error);
    r
}

/// The message logged when a plugin cannot evaluate the output of its command.
pub fn evaluation_failure_message(error: &str) -> (r: String)
    ensures
        r@ == "Failed to evaluate plugin: "@ + error@,
{
    let mut r = string_of("Failed to evaluate plugin: ");
    r.append(error);
    r
}

} // verus!
