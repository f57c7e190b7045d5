use vstd::prelude::*;

verus! {

/// A key press, as far as the file browser tells keys apart.
#[derive(Clone, Copy, Debug, PartialEq, Eq, Structural)]
pub enum Key {
    Char(char),
    Tab,
    Up,
    Down,
    Enter,
    Esc,
    Backspace,
    Other,
}

/// What the keys currently drive: a dialog or search when one is open, else
/// the panes.
#[derive(Clone, Copy, Debug, PartialEq, Eq, Structural)]
pub enum Mode {
    Browse,
    ConnectionDialog,
    TransferDialog,
    Search,
}

/// What a key press asks the browser to do.
#[derive(Clone, Copy, Debug, PartialEq, Eq, Structural)]
pub enum Command {
    Quit,
    SwitchPane,
    /// Move the cursor of the active pane, or of the host list in the connection dialog.
    CursorUp,
    CursorDown,
    /// Enter the directory under the cursor.
    OpenDirectory,
    ToggleSelection,
    ShowConnections,
    PrepareTransfer,
    StartSearch,
    CloseConnections,
    ConnectToSelected,
    CancelTransfers,
    RunTransfers,
    /// Leave search mode, clearing the query and its filter.
    CancelSearch,
    /// Leave search mode, keeping the query.
    FinishSearch,
    SearchBackspace,
    SearchType(char),
    Nothing,
}

/// The mode for the open dialogs and search: the connection dialog first, then
/// the transfer dialog, then search.
pub open spec fn mode_spec(connection_dialog: bool, transfer_dialog: bool, searching: bool) -> Mode {
    if connection_dialog {
        Mode::ConnectionDialog
    } else if transfer_dialog {
        Mode::TransferDialog
    } else if searching {
        Mode::Search
    } else {
        Mode::Browse
    }
}

/// The command for `key` in `mode`.
pub open spec fn command_spec(mode: Mode, key: Key) -> Command {
    match mode {
        Mode::ConnectionDialog => match key {
            Key::Esc => Command::CloseConnections,
            Key::Up => Command::CursorUp,
            Key::Down => Command::CursorDown,
            Key::Enter => Command::ConnectToSelected,
            _ => Command::Nothing,
        },
        Mode::TransferDialog => match key {
            Key::Esc => Command::CancelTransfers,
            Key::Enter => Command::RunTransfers,
            _ => Command::Nothing,
        },
        Mode::Search => match key {
            Key::Esc => Command::CancelSearch,
            Key::Enter => Command::FinishSearch,
            Key::Backspace => Command::SearchBackspace,
            Key::Char(c) => Command::SearchType(c),
            _ => Command::Nothing,
        },
        Mode::Browse => match key {
            Key::Char(c) => if c == 'q' || c == 'Q' {
                Command::Quit
            } else if c == 'k' || c == 'K' {
                Command::CursorUp
            } else if c == 'j' || c == 'J' {
                Command::CursorDown
            } else if c == ' ' {
                Command::ToggleSelection
            } else if c == 'c' || c == 'C' {
                Command::ShowConnections
            } else if c == 't' || c == 'T' {
                Command::PrepareTransfer
            } else if c == '/' {
                Command::StartSearch
            } else {
                Command::Nothing
            },
            Key::Tab => Command::SwitchPane,
            Key::Up => Command::CursorUp,
            Key::Down => Command::CursorDown,
            Key::Enter => Command::OpenDirectory,
            _ => Command::Nothing,
        },
    }
}

/// The mode that the open dialogs and search give.
pub fn mode_of(connection_dialog: bool, transfer_dialog: bool, searching: bool) -> (r: Mode)
    ensures
        r == mode_spec(connection_dialog, transfer_dialog, searching),
{
    if connection_dialog {
        Mode::ConnectionDialog
    } else if transfer_dialog {
        Mode::TransferDialog
    } else if searching {
        Mode::Search
    } else {
        Mode::Browse
    }
}

/// The command for a key press in `mode`.
pub fn command_for(mode: Mode, key: Key) -> (r: Command)
    ensures
        r == command_spec(mode, key),
{
    match mode {
        Mode::ConnectionDialog => match key {
            Key::Esc => Command::CloseConnections,
            Key::Up => Command::CursorUp,
            Key::Down => Command::CursorDown,
            Key::Enter => Command::ConnectToSelected,
            _ => Command::Nothing,
        },
        Mode::TransferDialog => match key {
            Key::Esc => Command::CancelTransfers,
            Key::Enter => Command::RunTransfers,
            _ => Command::Nothing,
        },
        Mode::Search => match key {
            Key::Esc => Command::CancelSearch,
            Key::Enter => Command::FinishSearch,
            Key::Backspace => Command::SearchBackspace,
            Key::Char(c) => Command::SearchType(c),
            _ => Command::Nothing,
        },
        Mode::Browse => match key {
            Key::Char(c) => {
                if c == 'q' || c == 'Q' {
                    Command::Quit
                } else if c == 'k' || c == 'K' {
                    Command::CursorUp
                } else if c == 'j' || c == 'J' {
                    Command::CursorDown
                } else if c == ' ' {
                    Command::ToggleSelection
                } else if c == 'c' || c == 'C' {
                    Command::ShowConnections
                } else if c == 't' || c == 'T' {
                    Command::PrepareTransfer
                } else if c == '/' {
                    Command::StartSearch
                } else {
                    Command::Nothing
                }
            },
            Key::Tab => Command::SwitchPane,
            Key::Up => Command::CursorUp,
            Key::Down => Command::CursorDown,
            Key::Enter => Command::OpenDirectory,
            _ => Command::Nothing,
        },
    }
}

} // verus!
