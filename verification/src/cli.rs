//! Which action a command line asks for.

use vstd::prelude::*;

verus! {

/// What the command line asked for: one flag per action, set or not.
#[derive(Clone, Copy, Debug, PartialEq, Eq, Structural)]
pub struct Request {
    pub help: bool,
    pub theme: bool,
    pub cpu: bool,
    pub workspace_file: bool,
    pub workspace_folder: bool,
    pub workspace: bool,
    pub tree: bool,
    pub path: bool,
    pub open: bool,
}

/// An action of the tool.
#[derive(Clone, Copy, Debug, PartialEq, Eq, Structural)]
pub enum Action {
    Help,
    SetTheme,
    Cpu,
    CopyFile,
    CopyFolder,
    CopyWorkspace,
    Tree,
    PathTable,
    OpenData,
    List,
}

/// The action that a request leads to. Where several flags are set, the
/// first in this order wins: help, theme, processor, single file, single
/// folder, workspace, tree, `PATH`, structured data. With none set, the
/// directory is listed.
pub open spec fn action_of(request: Request) -> Action {
    if request.help {
        Action::Help
    } else if request.theme {
        Action::SetTheme
    } else if request.cpu {
        Action::Cpu
    } else if request.workspace_file {
        Action::CopyFile
    } else if request.workspace_folder {
        Action::CopyFolder
    } else if request.workspace {
        Action::CopyWorkspace
    } else if request.tree {
        Action::Tree
    } else if request.path {
        Action::PathTable
    } else if request.open {
        Action::OpenData
    } else {
        Action::List
    }
}

/// Chooses the action for a request.
pub fn choose_action(request: &Request) -> (r: Action)
    ensures
        r == action_of(*request),
{
    if request.help {
        Action::Help
    } else if request.theme {
        Action::SetTheme
    } else if request.cpu {
        Action::Cpu
    } else if request.workspace_file {
        Action::CopyFile
    } else if request.workspace_folder {
        Action::CopyFolder
    } else if request.workspace {
        Action::CopyWorkspace
    } else if request.tree {
        Action::Tree
    } else if request.path {
        Action::PathTable
    } else if request.open {
        Action::OpenData
    } else {
        Action::List
    }
}

} // verus!
