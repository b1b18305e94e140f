use vstd::prelude::*;
use crate::app::ViewMode;
use crate::order::SortMode;
use crate::text::{lowercase, to_lowercase};

verus! {

/// A key press, as far as the screens react to it.
#[derive(Clone, Copy, Debug, PartialEq, Eq, Structural)]
pub enum Key {
    Esc,
    Enter,
    Backspace,
    Up,
    Down,
    Char(char),
    Other,
}

/// What a key press asks for. `Next` and `Previous` on the process list
/// also scroll the selection into view and clear the status message;
/// `Refresh` also clears it.
#[derive(Clone, Copy, Debug, PartialEq, Eq, Structural)]
pub enum Command {
    Nothing,
    ToggleSearch,
    SearchBackspace,
    SearchInput(char),
    Quit,
    Refresh,
    CycleSort,
    ToggleSortOrder,
    ConfirmKill,
    ShowDetail,
    Next,
    Previous,
    BackToList,
    ToggleProject,
    DeployProject,
    ProjectsNext,
    ProjectsPrevious,
    KillSelected,
}

/// The command of a key press: in search mode the key edits the query;
/// otherwise each view has its own keys.
pub open spec fn key_command(search_mode: bool, view: ViewMode, key: Key) -> Command {
    if search_mode {
        match key {
            Key::Esc | Key::Enter => Command::ToggleSearch,
            Key::Backspace => Command::SearchBackspace,
            Key::Char(c) => Command::SearchInput(c),
            _ => Command::Nothing,
        }
    } else {
        match view {
            ViewMode::List => match key {
                Key::Char('q') => Command::Quit,
                Key::Char('/') => Command::ToggleSearch,
                Key::Char('r') => Command::Refresh,
                Key::Char('s') => Command::CycleSort,
                Key::Char('o') => Command::ToggleSortOrder,
                Key::Char('x') | Key::Char('d') => Command::ConfirmKill,
                Key::Enter => Command::ShowDetail,
                Key::Down | Key::Char('j') => Command::Next,
                Key::Up | Key::Char('k') => Command::Previous,
                _ => Command::Nothing,
            },
            ViewMode::Projects => match key {
                Key::Char('q') => Command::Quit,
                Key::Esc => Command::BackToList,
                Key::Char(' ') => Command::ToggleProject,
                Key::Char('d') => Command::DeployProject,
                Key::Down | Key::Char('j') => Command::ProjectsNext,
                Key::Up | Key::Char('k') => Command::ProjectsPrevious,
                _ => Command::Nothing,
            },
            ViewMode::Detail => match key {
                Key::Esc => Command::BackToList,
                Key::Char('x') => Command::ConfirmKill,
                _ => Command::Nothing,
            },
            ViewMode::ConfirmKill => match key {
                Key::Char('y') | Key::Char('Y') => Command::KillSelected,
                Key::Char('n') | Key::Char('N') | Key::Esc => Command::BackToList,
                _ => Command::Nothing,
            },
        }
    }
}

/// The command of a key press in the given mode and view.
#[allow(non_snake_case)]
pub fn keyCommand(search_mode: bool, view: ViewMode, key: Key) -> (c: Command)
    ensures
        c == key_command(search_mode, view, key),
{
    if search_mode {
        match key {
            Key::Esc | Key::Enter => Command::ToggleSearch,
            Key::Backspace => Command::SearchBackspace,
            Key::Char(c) => Command::SearchInput(c),
            _ => Command::Nothing,
        }
    } else {
        match view {
            ViewMode::List => match key {
                Key::Char('q') => Command::Quit,
                Key::Char('/') => Command::ToggleSearch,
                Key::Char('r') => Command::Refresh,
                Key::Char('s') => Command::CycleSort,
                Key::Char('o') => Command::ToggleSortOrder,
                Key::Char('x') | Key::Char('d') => Command::ConfirmKill,
                Key::Enter => Command::ShowDetail,
                Key::Down | Key::Char('j') => Command::Next,
                Key::Up | Key::Char('k') => Command::Previous,
                _ => Command::Nothing,
            },
            ViewMode::Projects => match key {
                Key::Char('q') => Command::Quit,
                Key::Esc => Command::BackToList,
                Key::Char(' ') => Command::ToggleProject,
                Key::Char('d') => Command::DeployProject,
                Key::Down | Key::Char('j') => Command::ProjectsNext,
                Key::Up | Key::Char('k') => Command::ProjectsPrevious,
                _ => Command::Nothing,
            },
            ViewMode::Detail => match key {
                Key::Esc => Command::BackToList,
                Key::Char('x') => Command::ConfirmKill,
                _ => Command::Nothing,
            },
            ViewMode::ConfirmKill => match key {
                Key::Char('y') | Key::Char('Y') => Command::KillSelected,
                Key::Char('n') | Key::Char('N') | Key::Esc => Command::BackToList,
                _ => Command::Nothing,
            },
        }
    }
}

/// The sort column named by a lower-cased `--sort` argument: `cpu`,
/// `memory` or `mem`, `connections` or `conn`, `name`, and the port for
/// anything else.
pub open spec fn sort_mode_named(arg_lower: Seq<char>) -> SortMode {
    if arg_lower == "cpu"@ {
        SortMode::Cpu
    } else if arg_lower == "memory"@ || arg_lower == "mem"@ {
        SortMode::Memory
    } else if arg_lower == "connections"@ || arg_lower == "conn"@ {
        SortMode::Connections
    } else if arg_lower == "name"@ {
        SortMode::Name
    } else {
        SortMode::Port
    }
}

/// The sort column named by a lower-cased `--sort` argument.
#[allow(non_snake_case)]
pub fn sortModeNamed(arg_lower: &str) -> (m: SortMode)
    ensures
        m == sort_mode_named(arg_lower@),
{
    let a = String::from_str(arg_lower);
    if a == String::from_str("cpu") {
        SortMode::Cpu
    } else if a == String::from_str("memory") || a == String::from_str("mem") {
        SortMode::Memory
    } else if a == String::from_str("connections") || a == String::from_str("conn") {
        SortMode::Connections
    } else if a == String::from_str("name") {
        SortMode::Name
    } else {
        SortMode::Port
    }
}

/// The sort column named by a `--sort` argument, in any letter case.
#[allow(non_snake_case)]
pub fn sortModeFromArg(arg: &str) -> (m: SortMode)
    ensures
        m == sort_mode_named(lowercase(arg@)),
{
    let lower = to_lowercase(arg);
    sortModeNamed(lower.as_str())
}

/// A process is killed from the confirmation view, by `y` or `Y`, and in
/// no other way: no key kills from the list, the detail view, the projects
/// view or while typing a search.
pub proof fn lemma_kill_needs_confirmation(search_mode: bool, view: ViewMode, key: Key)
    ensures
        key_command(search_mode, view, key) == Command::KillSelected <==> !search_mode && view
            == ViewMode::ConfirmKill && (key == Key::Char('y') || key == Key::Char('Y')),
{
}

/// Outside a search, `j` does what the down arrow does and `k` what the up
/// arrow does, in every view; on the process list they move the selection
/// down and up, and on the projects screen the project selection.
pub proof fn lemma_vim_keys(view: ViewMode)
    ensures
        key_command(false, view, Key::Char('j')) == key_command(false, view, Key::Down),
        key_command(false, view, Key::Char('k')) == key_command(false, view, Key::Up),
        key_command(false, ViewMode::List, Key::Down) == Command::Next,
        key_command(false, ViewMode::List, Key::Up) == Command::Previous,
        key_command(false, ViewMode::Projects, Key::Down) == Command::ProjectsNext,
        key_command(false, ViewMode::Projects, Key::Up) == Command::ProjectsPrevious,
{
}

/// While typing a search, every character key goes into the query and
/// `Esc` or `Enter` leaves search mode, whatever the view.
pub proof fn lemma_search_mode_keys(view: ViewMode, c: char)
    ensures
        key_command(true, view, Key::Char(c)) == Command::SearchInput(c),
        key_command(true, view, Key::Esc) == Command::ToggleSearch,
        key_command(true, view, Key::Enter) == Command::ToggleSearch,
{
}


/// The keys that the README lists: on the process list `q` quits, `/`
/// searches, `r` refreshes, `s` cycles the sort column, `o` turns the
/// order around, `Enter` opens the detail view and `x` or `d` asks to kill;
/// in the detail view `Esc` goes back and `x` asks to kill; on the
/// confirmation `n`, `N` or `Esc` cancels; while searching `Backspace`
/// deletes a character.
pub proof fn lemma_documented_keys(view: ViewMode)
    ensures
        key_command(false, ViewMode::List, Key::Char('q')) == Command::Quit,
        key_command(false, ViewMode::List, Key::Char('/')) == Command::ToggleSearch,
        key_command(false, ViewMode::List, Key::Char('r')) == Command::Refresh,
        key_command(false, ViewMode::List, Key::Char('s')) == Command::CycleSort,
        key_command(false, ViewMode::List, Key::Char('o')) == Command::ToggleSortOrder,
        key_command(false, ViewMode::List, Key::Enter) == Command::ShowDetail,
        key_command(false, ViewMode::List, Key::Char('x')) == Command::ConfirmKill,
        key_command(false, ViewMode::List, Key::Char('d')) == Command::ConfirmKill,
        key_command(false, ViewMode::Detail, Key::Esc) == Command::BackToList,
        key_command(false, ViewMode::Detail, Key::Char('x')) == Command::ConfirmKill,
        key_command(false, ViewMode::ConfirmKill, Key::Char('n')) == Command::BackToList,
        key_command(false, ViewMode::ConfirmKill, Key::Char('N')) == Command::BackToList,
        key_command(false, ViewMode::ConfirmKill, Key::Esc) == Command::BackToList,
        key_command(true, view, Key::Backspace) == Command::SearchBackspace,
{
}

} // verus!
