//! Workspace view state: the sidebar tab and panel visibility.

use vstd::prelude::*;

use crate::models::project::Project;
use crate::text::{has_prefix, starts_with, str_eq};

verus! {

/// The tab shown in the left sidebar.
#[derive(Debug, Clone, Copy, PartialEq, Eq, Structural)]
pub enum SidebarTab {
    Chapters,
    Outline,
}

impl Default for SidebarTab {
    /// The chapter tree.
    fn default() -> (r: Self)
        ensures
            r == SidebarTab::Chapters,
    {
        SidebarTab::Chapters
    }
}

impl SidebarTab {
    pub open spec fn spec_as_str(self) -> &'static str {
        match self {
            SidebarTab::Chapters => "chapters",
            SidebarTab::Outline => "outline",
        }
    }

    /// The name stored in the project file.
    pub fn as_str(self) -> (r: &'static str)
        ensures
            r == self.spec_as_str(),
    {
        match self {
            SidebarTab::Chapters => "chapters",
            SidebarTab::Outline => "outline",
        }
    }

    /// The tab named `s`: `outline` is the outline, anything else the
    /// chapter tree.
    pub fn parse(s: &str) -> (r: Self)
        ensures
            r == (if s@ == "outline"@ {
                SidebarTab::Outline
            } else {
                SidebarTab::Chapters
            }),
    {
        if str_eq(s, "outline") {
            SidebarTab::Outline
        } else {
            SidebarTab::Chapters
        }
    }
}

/// Which parts of the workspace are shown.
#[derive(Debug, Clone, Copy, PartialEq, Eq, Structural)]
pub struct WorkspaceUi {
    pub sidebar_tab: SidebarTab,
    pub ai_panel_open: bool,
    pub sidebar_visible: bool,
}

impl Default for WorkspaceUi {
    /// The chapter tree shown, the AI panel closed, the sidebar visible.
    fn default() -> (r: Self)
        ensures
            r.sidebar_tab == SidebarTab::Chapters,
            !r.ai_panel_open,
            r.sidebar_visible,
    {
        WorkspaceUi { sidebar_tab: SidebarTab::Chapters, ai_panel_open: false, sidebar_visible: true }
    }
}

impl WorkspaceUi {
    /// Opens the AI panel when closed and closes it when open.
    pub fn toggle_ai_panel(&mut self)
        ensures
            final(self).ai_panel_open == !old(self).ai_panel_open,
            final(self).sidebar_tab == old(self).sidebar_tab,
            final(self).sidebar_visible == old(self).sidebar_visible,
    {
        self.ai_panel_open = !self.ai_panel_open;
    }

    /// The view state after opening `project`: its stored sidebar tab and
    /// AI panel state; the sidebar's visibility stays.
    pub fn opened(self, project: &Project) -> (r: Self)
        ensures
            r.sidebar_tab == (if project.ui_state.sidebar_tab@ == "outline"@ {
                SidebarTab::Outline
            } else {
                SidebarTab::Chapters
            }),
            r.ai_panel_open == project.ui_state.ai_panel_open,
            r.sidebar_visible == self.sidebar_visible,
    {
        WorkspaceUi {
            sidebar_tab: SidebarTab::parse(project.ui_state.sidebar_tab.as_str()),
            ai_panel_open: project.ui_state.ai_panel_open,
            sidebar_visible: self.sidebar_visible,
        }
    }
}

/// The window title: the open project's title, or a placeholder.
pub fn current_title(project: Option<&Project>) -> (r: &str)
    ensures
        project matches Some(p) ==> r@ == p.title@,
        project is None ==> r@ == "未打开项目"@,
{
    match project {
        Some(p) => p.title.as_str(),
        None => "未打开项目",
    }
}

/// A path as written in the settings: the home directory, a path below
/// it (written with a leading `~/`), or a path taken as it is.
#[derive(Debug, Clone, PartialEq, Eq)]
pub enum UserPath {
    Home,
    UnderHome(String),
    Literal(String),
}

/// Reads a settings path: `~` alone is the home directory, `~/rest` is
/// `rest` below it, anything else is literal.
pub fn classify_user_path(path: &str) -> (r: UserPath)
    ensures
        has_prefix(path@, "~/"@) ==> (r matches UserPath::UnderHome(rest) && rest@ == path@.skip(2)),
        !has_prefix(path@, "~/"@) && path@ == "~"@ ==> r == UserPath::Home,
        !has_prefix(path@, "~/"@) && path@ != "~"@ ==> (r matches UserPath::Literal(p) && p@ == path@),
{
    if starts_with(path, "~/") {
        proof {
            reveal_strlit("~/");
        }
        let chars = crate::text::chars_of(path);
        let mut rest: Vec<char> = Vec::new();
        let mut i: usize = 2;
        while i < chars.len()
            invariant
                2 <= i <= chars@.len(),
                chars@ == path@,
                rest@ == chars@.subrange(2, i as int),
            decreases chars.len() - i,
        {
            rest.push(chars[i]);
            i = i + 1;
        }
        UserPath::UnderHome(crate::text::string_of(rest.as_slice()))
    } else if str_eq(path, "~") {
        UserPath::Home
    } else {
        UserPath::Literal(String::from_str(path))
    }
}

} // verus!
