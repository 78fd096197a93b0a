//! The chat widget's saved-workflow commands: the workflows menu, launching a
//! saved workflow by name, and inspecting or stopping managed runs. The widget
//! records what it does as effects, in order, for the surrounding interface to
//! carry out.

use vstd::prelude::*;

use crate::source::all_ws;
use crate::trim::{first_ws_from, has_prefix, lemma_first_ws_from, same_text, starts_with, suffix_from, trim, trimmed};
use crate::text::{chars_of, string_of_range, unicode_ws};

verus! {

/// A saved workflow found in a workflow scope.
#[derive(Clone, Debug, PartialEq, Eq)]
pub struct SavedWorkflow {
    pub name: String,
    pub path: String,
}

/// What choosing a menu item does.
pub enum SelectionAction {
    InspectWorkflowRuns,
    RunSavedWorkflow { path: String },
}

pub struct SelectionItem {
    pub name: String,
    pub description: Option<String>,
    pub action: SelectionAction,
    pub dismiss_on_select: bool,
}

pub struct SelectionViewParams {
    pub title: Option<String>,
    pub subtitle: Option<String>,
    pub items: Vec<SelectionItem>,
}

/// Something the widget asks its surroundings to do.
pub enum ChatEffect {
    SubmitUserMessage(String),
    AddErrorMessage(String),
    ShowSelectionView(SelectionViewParams),
    RequestRedraw,
}

/// The part of the chat widget that handles saved workflows.
pub struct ChatWidget {
    pub current_cwd: Option<String>,
    pub config_cwd: String,
    pub codex_home: String,
    pub effects: Vec<ChatEffect>,
}

/// A parsed `/workflows` command, as text.
pub enum CommandView {
    InspectRuns,
    Terminate(Seq<char>),
    OpenMenu,
    Launch(Seq<char>, Option<Seq<char>>),
}

/// A parsed `/workflows` command.
pub enum SavedWorkflowCommand {
    InspectRuns,
    Terminate { run_id: String },
    OpenMenu,
    Launch { name: String, args: Option<String> },
}

pub open spec fn command_view(c: SavedWorkflowCommand) -> CommandView {
    match c {
        SavedWorkflowCommand::InspectRuns => CommandView::InspectRuns,
        SavedWorkflowCommand::Terminate { run_id } => CommandView::Terminate(run_id@),
        SavedWorkflowCommand::OpenMenu => CommandView::OpenMenu,
        SavedWorkflowCommand::Launch { name, args } => CommandView::Launch(
            name@,
            match args {
                Some(a) => Some(a@),
                None => None,
            },
        ),
    }
}

/// The run a `stop <id>` or `terminate <id>` command names, if any.
pub open spec fn terminate_target(t: Seq<char>) -> Option<Seq<char>> {
    let rest = if has_prefix(t, "stop "@) {
        Some(t.subrange("stop "@.len() as int, t.len() as int))
    } else if has_prefix(t, "terminate "@) {
        Some(t.subrange("terminate "@.len() as int, t.len() as int))
    } else {
        None
    };
    match rest {
        Some(r) => if trimmed(r).len() > 0 {
            Some(trimmed(r))
        } else {
            None
        },
        None => None,
    }
}

/// What a `/workflows` input asks for: `list` or `status` inspects runs;
/// `stop <id>` or `terminate <id>` stops a run; otherwise the first word
/// names a saved workflow and the rest after one whitespace character is its
/// input, and an empty input opens the menu.
pub open spec fn saved_command(input: Seq<char>) -> CommandView {
    let t = trimmed(input);
    if t == "list"@ || t == "status"@ {
        CommandView::InspectRuns
    } else {
        match terminate_target(t) {
            Some(run_id) => CommandView::Terminate(run_id),
            None => {
                let (name, args) = match first_ws_from(t, 0) {
                    None => (t, None),
                    Some(j) => (t.subrange(0, j), Some(t.subrange(j + 1, t.len() as int))),
                };
                if name.len() == 0 {
                    CommandView::OpenMenu
                } else {
                    CommandView::Launch(name, args)
                }
            },
        }
    }
}

/// Parses a `/workflows` input.
pub fn saved_workflow_command(input: &str) -> (r: SavedWorkflowCommand)
    ensures
        command_view(r) == saved_command(input@),
{
    let t = trim(input);
    if same_text(t.as_str(), "list") || same_text(t.as_str(), "status") {
        return SavedWorkflowCommand::InspectRuns;
    }
    let rest = if starts_with(t.as_str(), "stop ") {
        let n = chars_of("stop ").len();
        Some(suffix_from(t.as_str(), n))
    } else if starts_with(t.as_str(), "terminate ") {
        let n = chars_of("terminate ").len();
        Some(suffix_from(t.as_str(), n))
    } else {
        None
    };
    let target = match rest {
        Some(r) => {
            let run_id = trim(r.as_str());
            if chars_of(run_id.as_str()).len() > 0 {
                Some(run_id)
            } else {
                None
            }
        },
        None => None,
    };
    assert(match target {
        Some(x) => terminate_target(t@) == Some(x@),
        None => terminate_target(t@) is None,
    });
    if let Some(run_id) = target {
        return SavedWorkflowCommand::Terminate { run_id };
    }
    let chars = chars_of(t.as_str());
    let s = chars.as_slice();
    let n = s.len();
    let mut j: usize = 0;
    while j < n && !unicode_ws(s[j])
        invariant
            n == s@.len(),
            0 <= j <= n,
            first_ws_from(s@, j as int) == first_ws_from(s@, 0),
        decreases n - j,
    {
        j = j + 1;
    }
    proof {
        lemma_first_ws_from(s@, 0);
    }
    let (name, args) = if j >= n {
        (string_of_range(s, 0, n), None)
    } else {
        (string_of_range(s, 0, j), Some(string_of_range(s, j + 1, n)))
    };
    proof {
        assert(s@.subrange(0, n as int) == s@);
    }
    if chars_of(name.as_str()).len() == 0 {
        SavedWorkflowCommand::OpenMenu
    } else {
        SavedWorkflowCommand::Launch { name, args }
    }
}

/// The user message that launches a saved workflow: it names the file and,
/// when the user typed any non-blank input, passes it on as structured
/// arguments.
pub open spec fn prompt_text(path: Seq<char>, args: Option<Seq<char>>) -> Seq<char> {
    "Run the saved workflow at `"@ + path + "` with `run_workflow` and wait for it to complete."@
        + match args {
        Some(a) => if !all_ws(a) {
            " Pass this user input as structured workflow args: "@ + a
        } else {
            Seq::empty()
        },
        None => Seq::empty(),
    }
}

pub open spec fn inspect_runs_text() -> Seq<char> {
    "Call `list_workflows` and present the managed workflow runs with their IDs, names, statuses, and elapsed times. Do not infer runs from conversation history."@
}

pub open spec fn terminate_text(run_id: Seq<char>) -> Seq<char> {
    "Call `control_workflow` for managed run `"@ + run_id
        + "` with action `terminate`, then report its resulting status."@
}

pub open spec fn not_found_text(name: Seq<char>) -> Seq<char> {
    "Saved workflow `"@ + name + "` was not found in project or personal workflow scopes."@
}

/// The user message that launches the saved workflow at `path`.
pub fn saved_workflow_prompt(path: &str, args: Option<&str>) -> (r: String)
    ensures
        r@ == prompt_text(
            path@,
            match args {
                Some(a) => Some(a@),
                None => None,
            },
        ),
{
    let mut prompt = String::from_str("Run the saved workflow at `");
    prompt.append(path);
    prompt.append("` with `run_workflow` and wait for it to complete.");
    match args {
        Some(a) => {
            if !crate::source::is_blank(a) {
                prompt.append(" Pass this user input as structured workflow args: ");
                prompt.append(a);
            }
        },
        None => {},
    }
    prompt
}

/// The first saved workflow, from `i`, called `name`.
pub open spec fn workflow_named_from(ws: Seq<SavedWorkflow>, name: Seq<char>, i: int) -> Option<int>
    decreases ws.len() - i,
{
    if i < 0 || i >= ws.len() {
        None
    } else if ws[i].name@ == name {
        Some(i)
    } else {
        workflow_named_from(ws, name, i + 1)
    }
}

pub proof fn lemma_workflow_named_from(ws: Seq<SavedWorkflow>, name: Seq<char>, i: int)
    requires
        0 <= i,
    ensures
        workflow_named_from(ws, name, i) matches Some(k) ==> i <= k < ws.len() && ws[k].name@
            == name,
    decreases ws.len() - i,
{
    if i < ws.len() && ws[i].name@ != name {
        lemma_workflow_named_from(ws, name, i + 1);
    }
}

/// The menu item of a saved workflow: it shows the name and path and launches it.
pub open spec fn is_workflow_item(item: SelectionItem, w: SavedWorkflow) -> bool {
    &&& item.name@ == w.name@
    &&& item.description matches Some(d) && d@ == w.path@
    &&& item.action matches SelectionAction::RunSavedWorkflow { path } && path@ == w.path@
    &&& item.dismiss_on_select
}

/// The workflows menu: an item for the managed runs, then one per saved
/// workflow, in the order given.
pub open spec fn is_workflows_menu(params: SelectionViewParams, ws: Seq<SavedWorkflow>) -> bool {
    &&& params.title matches Some(t) && t@ == "Saved workflows"@
    &&& params.subtitle matches Some(t) && t@ == "Inspect managed runs or launch a saved workflow."@
    &&& params.items@.len() == ws.len() + 1
    &&& params.items@[0].name@ == "Managed runs"@
    &&& params.items@[0].description matches Some(d) && d@
        == "View active, completed, and terminated workflow runs"@
    &&& params.items@[0].action is InspectWorkflowRuns
    &&& params.items@[0].dismiss_on_select
    &&& forall|i: int| 0 <= i < ws.len() ==> is_workflow_item(#[trigger] params.items@[i + 1], ws[i])
}

/// Appending one effect.
pub open spec fn appended(before: Seq<ChatEffect>, after: Seq<ChatEffect>) -> bool {
    after.len() == before.len() + 1 && after.drop_last() == before
}

/// The effect asks to submit `text` as a user message.
pub open spec fn submits(e: ChatEffect, text: Seq<char>) -> bool {
    e matches ChatEffect::SubmitUserMessage(m) && m@ == text
}

impl ChatWidget {
    /// The directory whose workflow scopes are searched: the current working
    /// directory when known, otherwise the configured one.
    pub fn workflow_cwd(&self) -> (r: &String)
        ensures
            r == match self.current_cwd {
                Some(c) => c,
                None => self.config_cwd,
            },
    {
        match &self.current_cwd {
            Some(c) => c,
            None => &self.config_cwd,
        }
    }

    /// Shows the workflows menu for the saved workflows found, then asks for
    /// a redraw.
    pub fn open_workflows_menu(&mut self, workflows: Vec<SavedWorkflow>)
        ensures
            final(self).current_cwd == old(self).current_cwd,
            final(self).config_cwd == old(self).config_cwd,
            final(self).codex_home == old(self).codex_home,
            final(self).effects@.len() == old(self).effects@.len() + 2,
            final(self).effects@.subrange(0, old(self).effects@.len() as int) == old(self).effects@,
            final(self).effects@[old(self).effects@.len() as int] matches ChatEffect::ShowSelectionView(
                params,
            ) && is_workflows_menu(params, workflows@),
            final(self).effects@.last() is RequestRedraw,
    {
        let mut items: Vec<SelectionItem> = Vec::new();
        items.push(
            SelectionItem {
                name: String::from_str("Managed runs"),
                description: Some(
                    String::from_str("View active, completed, and terminated workflow runs"),
                ),
                action: SelectionAction::InspectWorkflowRuns,
                dismiss_on_select: true,
            },
        );
        let ghost ws = workflows@;
        let mut i: usize = 0;
        while i < workflows.len()
            invariant
                ws == workflows@,
                0 <= i <= ws.len(),
                items@.len() == i + 1,
                items@[0].name@ == "Managed runs"@,
                items@[0].description matches Some(d) && d@
                    == "View active, completed, and terminated workflow runs"@,
                items@[0].action is InspectWorkflowRuns,
                items@[0].dismiss_on_select,
                forall|m: int| 0 <= m < i ==> is_workflow_item(#[trigger] items@[m + 1], ws[m]),
            decreases ws.len() - i,
        {
            let w = &workflows[i];
            items.push(
                SelectionItem {
                    name: w.name.clone(),
                    description: Some(w.path.clone()),
                    action: SelectionAction::RunSavedWorkflow { path: w.path.clone() },
                    dismiss_on_select: true,
                },
            );
            proof {
                assert(is_workflow_item(items@[i + 1], ws[i as int]));
            }
            i = i + 1;
        }
        let ghost before = self.effects@;
        self.effects.push(
            ChatEffect::ShowSelectionView(
                SelectionViewParams {
                    title: Some(String::from_str("Saved workflows")),
                    subtitle: Some(String::from_str("Inspect managed runs or launch a saved workflow.")),
                    items,
                },
            ),
        );
        self.effects.push(ChatEffect::RequestRedraw);
        proof {
            assert(self.effects@.subrange(0, before.len() as int) =~= before);
        }
    }

    /// Launches the saved workflow at `path` by submitting its prompt.
    pub fn run_saved_workflow(&mut self, path: &str, args: Option<&str>)
        ensures
            final(self).current_cwd == old(self).current_cwd,
            final(self).config_cwd == old(self).config_cwd,
            final(self).codex_home == old(self).codex_home,
            appended(old(self).effects@, final(self).effects@),
            submits(
                final(self).effects@.last(),
                prompt_text(
                    path@,
                    match args {
                        Some(a) => Some(a@),
                        None => None,
                    },
                ),
            ),
    {
        let prompt = saved_workflow_prompt(path, args);
        self.effects.push(ChatEffect::SubmitUserMessage(prompt));
        proof {
            assert(self.effects@.drop_last() =~= old(self).effects@);
        }
    }

    /// Asks the model to list the managed workflow runs.
    pub fn inspect_workflow_runs(&mut self)
        ensures
            final(self).current_cwd == old(self).current_cwd,
            final(self).config_cwd == old(self).config_cwd,
            final(self).codex_home == old(self).codex_home,
            appended(old(self).effects@, final(self).effects@),
            submits(final(self).effects@.last(), inspect_runs_text()),
    {
        self.effects.push(
            ChatEffect::SubmitUserMessage(
                String::from_str(
                    "Call `list_workflows` and present the managed workflow runs with their IDs, names, statuses, and elapsed times. Do not infer runs from conversation history.",
                ),
            ),
        );
        proof {
            assert(self.effects@.drop_last() =~= old(self).effects@);
        }
    }

    /// Carries out a `/workflows` input, given the saved workflows found in
    /// the scopes of `workflow_cwd`.
    pub fn run_saved_workflow_by_name(&mut self, input: &str, workflows: &Vec<SavedWorkflow>)
        ensures
            final(self).current_cwd == old(self).current_cwd,
            final(self).config_cwd == old(self).config_cwd,
            final(self).codex_home == old(self).codex_home,
            match saved_command(input@) {
                CommandView::InspectRuns => appended(old(self).effects@, final(self).effects@)
                    && submits(final(self).effects@.last(), inspect_runs_text()),
                CommandView::Terminate(run_id) => appended(old(self).effects@, final(self).effects@)
                    && submits(final(self).effects@.last(), terminate_text(run_id)),
                CommandView::OpenMenu => {
                    &&& final(self).effects@.len() == old(self).effects@.len() + 2
                    &&& final(self).effects@.subrange(0, old(self).effects@.len() as int) == old(
                        self).effects@
                    &&& final(self).effects@[old(self).effects@.len() as int] matches ChatEffect::ShowSelectionView(
                        params,
                    ) && is_workflows_menu(params, workflows@)
                    &&& final(self).effects@.last() is RequestRedraw
                },
                CommandView::Launch(name, args) => appended(old(self).effects@, final(self).effects@)
                    && match workflow_named_from(workflows@, name, 0) {
                    None => final(self).effects@.last() matches ChatEffect::AddErrorMessage(m)
                        && m@ == not_found_text(name),
                    Some(k) => submits(
                        final(self).effects@.last(),
                        prompt_text(workflows@[k].path@, args),
                    ),
                },
            },
    {
        match saved_workflow_command(input) {
            SavedWorkflowCommand::InspectRuns => {
                self.inspect_workflow_runs();
            },
            SavedWorkflowCommand::Terminate { run_id } => {
                let mut message = String::from_str("Call `control_workflow` for managed run `");
                message.append(run_id.as_str());
                message.append("` with action `terminate`, then report its resulting status.");
                self.effects.push(ChatEffect::SubmitUserMessage(message));
                proof {
                    assert(self.effects@.drop_last() =~= old(self).effects@);
                }
            },
            SavedWorkflowCommand::OpenMenu => {
                let mut copies: Vec<SavedWorkflow> = Vec::new();
                let mut i: usize = 0;
                while i < workflows.len()
                    invariant
                        0 <= i <= workflows@.len(),
                        copies@.len() == i,
                        forall|m: int| 0 <= m < i ==> #[trigger] copies@[m] == workflows@[m],
                    decreases workflows@.len() - i,
                {
                    copies.push(
                        SavedWorkflow {
                            name: workflows[i].name.clone(),
                            path: workflows[i].path.clone(),
                        },
                    );
                    i = i + 1;
                }
                assert(copies@ =~= workflows@);
                self.open_workflows_menu(copies);
            },
            SavedWorkflowCommand::Launch { name, args } => {
                let mut k: usize = 0;
                let mut found: Option<usize> = None;
                while k < workflows.len() && found.is_none()
                    invariant
                        0 <= k <= workflows@.len(),
                        found is None ==> workflow_named_from(workflows@, name@, k as int)
                            == workflow_named_from(workflows@, name@, 0),
                        found matches Some(j) ==> workflow_named_from(workflows@, name@, 0) == Some(
                            j as int,
                        ),
                    decreases workflows@.len() - k + (if found is None { 1int } else { 0int }),
                {
                    if workflows[k].name == name {
                        found = Some(k);
                    } else {
                        k = k + 1;
                    }
                }
                match found {
                    Some(k) => {
                        proof {
                            lemma_workflow_named_from(workflows@, name@, 0);
                        }
                        let args_text = match &args {
                            Some(a) => Some(a.as_str()),
                            None => None,
                        };
                        self.run_saved_workflow(workflows[k].path.as_str(), args_text);
                    },
                    None => {
                        let mut message = String::from_str("Saved workflow `");
                        message.append(name.as_str());
                        message.append("` was not found in project or personal workflow scopes.");
                        self.effects.push(ChatEffect::AddErrorMessage(message));
                        proof {
                            assert(self.effects@.drop_last() =~= old(self).effects@);
                        }
                    },
                }
            },
        }
    }
}

} // verus!
