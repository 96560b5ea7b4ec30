//! The first-start set-up screen: its state and what each of its buttons
//! and events does to it. Drawing and file work are left to the caller,
//! which performs the returned actions.

use vstd::prelude::*;
use crate::configshandler::{ConfigVar, DBTypes, DefaultTemplate};

verus! {

/// Which of the two template panels is chosen.
#[derive(Clone, Copy, Debug, PartialEq, Eq, Structural)]
pub enum SelectedPanel {
    Unselected,
    Left,
    Right,
}

/// The three steps of the set-up: template, database, done.
#[derive(Clone, Copy, Debug, PartialEq, Eq, Structural)]
pub enum ConfStage {
    First,
    Second,
    Third,
}

/// Everything the set-up screen needs. `preview_pending` is set while a
/// database preview is being loaded.
pub struct FirstConfigurationState {
    pub stage: ConfStage,
    pub editor_text: String,
    pub default_template: DefaultTemplate,
    pub selected_panel: SelectedPanel,
    pub selected_db_type: DBTypes,
    pub selected_db_path: Option<String>,
    pub preview_headers: Vec<String>,
    pub preview_rows: Vec<Vec<String>>,
    pub preview_error: Option<String>,
    pub preview_pending: bool,
    pub finished: bool,
}

/// The position of a step in the set-up: 0, 1, 2.
pub open spec fn stage_rank(s: ConfStage) -> int {
    match s {
        ConfStage::First => 0,
        ConfStage::Second => 1,
        ConfStage::Third => 2,
    }
}

/// A finished set-up is in its last step.
pub open spec fn setup_wf(s: FirstConfigurationState) -> bool {
    s.finished ==> s.stage == ConfStage::Third
}

/// What one call on the set-up state may change: the default templates stay,
/// the step moves forward by at most one and never back, and `finished` is
/// never cleared and is set only in the last step.
pub open spec fn setup_step(before: FirstConfigurationState, after: FirstConfigurationState) -> bool {
    &&& after.default_template == before.default_template
    &&& stage_rank(before.stage) <= stage_rank(after.stage) <= stage_rank(before.stage) + 1
    &&& before.finished ==> after.finished
    &&& !before.finished && after.finished ==> before.stage == ConfStage::Third && after.stage
        == ConfStage::Third
    &&& setup_wf(before) ==> setup_wf(after)
}

/// Along any run of calls on the set-up state, each one a `setup_step`: the
/// default templates never change, the step never goes back, a finished
/// set-up stays finished, and a well-formed start (as `new` gives) stays
/// well-formed, so `finished` is only ever set in the last step.
pub proof fn lemma_setup_run(run: Seq<FirstConfigurationState>)
    requires
        forall|k: int| 0 <= k < run.len() - 1 ==> setup_step(#[trigger] run[k], run[k + 1]),
    ensures
        forall|i: int, j: int|
            0 <= i <= j < run.len() ==> {
                &&& (#[trigger] run[j]).default_template == (#[trigger] run[i]).default_template
                &&& stage_rank(run[i].stage) <= stage_rank(run[j].stage)
                &&& run[i].finished ==> run[j].finished
                &&& setup_wf(run[i]) ==> setup_wf(run[j])
            },
    decreases run.len(),
{
    if run.len() > 1 {
        let front = run.drop_last();
        assert forall|k: int| 0 <= k < front.len() - 1 implies setup_step(
            #[trigger] front[k],
            front[k + 1],
        ) by {
            assert(front[k] == run[k] && front[k + 1] == run[k + 1]);
        }
        lemma_setup_run(front);
        let n = run.len() - 1;
        assert forall|i: int, j: int| 0 <= i <= j < run.len() implies {
            &&& (#[trigger] run[j]).default_template == (#[trigger] run[i]).default_template
            &&& stage_rank(run[i].stage) <= stage_rank(run[j].stage)
            &&& run[i].finished ==> run[j].finished
            &&& setup_wf(run[i]) ==> setup_wf(run[j])
        } by {
            if j < n {
                assert(front[i] == run[i] && front[j] == run[j]);
            } else if i < n {
                assert(front[i] == run[i] && front[n - 1] == run[n - 1]);
                assert(setup_step(run[n - 1], run[n]));
            }
        }
    }
}

/// What the caller must do after the first step's save button.
pub enum FirstStageAction {
    /// Nothing was chosen: nothing to do.
    Stay,
    /// The shown template stays the default.
    KeepDefault,
    /// Store this text as a new reservation template and make it the
    /// default one.
    SaveNewTemplate(String),
}

/// What the database preview area shows.
#[derive(Debug, PartialEq, Eq)]
pub enum PreviewDisplay {
    Error(String),
    Table,
    Loading,
    Empty,
}

/// The name of a database type in the type chooser.
pub fn db_type_name(t: DBTypes) -> (r: String)
    ensures
        r@ == match t {
            DBTypes::NoDatabase => "Brak"@,
            DBTypes::Access => "MS Access"@,
            DBTypes::SQLite => "SQLite"@,
        },
{
    match t {
        DBTypes::NoDatabase => "Brak".to_owned(),
        DBTypes::Access => "MS Access".to_owned(),
        DBTypes::SQLite => "SQLite".to_owned(),
    }
}

impl FirstConfigurationState {
    /// The state at the start: first step, empty editor, nothing chosen, no
    /// database and no preview.
    pub fn new(default_template: DefaultTemplate) -> (r: Self)
        ensures
            r.stage == ConfStage::First,
            r.editor_text@ == Seq::<char>::empty(),
            r.default_template == default_template,
            r.selected_panel == SelectedPanel::Unselected,
            r.selected_db_type == DBTypes::NoDatabase,
            r.selected_db_path is None,
            r.preview_headers@ == Seq::<String>::empty(),
            r.preview_rows@ == Seq::<Vec<String>>::empty(),
            r.preview_error is None,
            !r.preview_pending,
            !r.finished,
            setup_wf(r),
    {
        FirstConfigurationState {
            stage: ConfStage::First,
            editor_text: String::new(),
            default_template,
            selected_panel: SelectedPanel::Unselected,
            selected_db_type: DBTypes::NoDatabase,
            selected_db_path: None,
            preview_headers: Vec::new(),
            preview_rows: Vec::new(),
            preview_error: None,
            preview_pending: false,
            finished: false,
        }
    }

    /// The first step's save button is enabled once a panel is chosen.
    pub fn first_stage_can_save(&self) -> (r: bool)
        ensures
            r == (self.selected_panel != SelectedPanel::Unselected),
    {
        self.selected_panel != SelectedPanel::Unselected
    }

    /// The first step's save button (shown in the first step only): with a
    /// panel chosen, go to the second step; with the editor chosen, its text
    /// is to be saved as the new default reservation template.
    pub fn first_stage_save(&mut self) -> (r: FirstStageAction)
        requires
            old(self).stage == ConfStage::First,
        ensures
            setup_step(*old(self), *final(self)),
            match old(self).selected_panel {
                SelectedPanel::Unselected => r is Stay && *final(self) == *old(self),
                SelectedPanel::Left => r is KeepDefault && *final(self) == (FirstConfigurationState {
                    stage: ConfStage::Second,
                    ..*old(self)
                }),
                SelectedPanel::Right => (r matches FirstStageAction::SaveNewTemplate(text)
                    && text@ == old(self).editor_text@) && *final(self) == (FirstConfigurationState {
                    stage: ConfStage::Second,
                    ..*old(self)
                }),
            },
    {
        match self.selected_panel {
            SelectedPanel::Unselected => FirstStageAction::Stay,
            SelectedPanel::Left => {
                self.stage = ConfStage::Second;
                FirstStageAction::KeepDefault
            },
            SelectedPanel::Right => {
                self.stage = ConfStage::Second;
                FirstStageAction::SaveNewTemplate(self.editor_text.clone())
            },
        }
    }

    /// A database file was picked: remember it, clear the old error and
    /// wait for its preview.
    pub fn start_preview(&mut self, path: String)
        ensures
            setup_step(*old(self), *final(self)),
            *final(self) == (FirstConfigurationState {
                selected_db_path: Some(path),
                preview_error: None,
                preview_pending: true,
                ..*old(self)
            }),
    {
        self.selected_db_path = Some(path);
        self.preview_error = None;
        self.preview_pending = true;
    }

    /// The preview arrived: on success its headers and rows are shown and
    /// the error cleared; on failure the error is shown and the table
    /// emptied. Either way the preview is no longer pending.
    pub fn receive_preview(&mut self, result: Result<(Vec<String>, Vec<Vec<String>>), String>)
        ensures
            setup_step(*old(self), *final(self)),
            match result {
                Ok((headers, rows)) => *final(self) == (FirstConfigurationState {
                    preview_headers: headers,
                    preview_rows: rows,
                    preview_error: None,
                    preview_pending: false,
                    ..*old(self)
                }),
                Err(e) => final(self).preview_error == Some(e) && final(self).preview_headers@.len()
                    == 0 && final(self).preview_rows@.len() == 0 && !final(self).preview_pending
                    && final(self).stage == old(self).stage && final(self).editor_text == old(
                    self,
                ).editor_text && final(self).default_template == old(self).default_template
                    && final(self).selected_panel == old(self).selected_panel
                    && final(self).selected_db_type == old(self).selected_db_type
                    && final(self).selected_db_path == old(self).selected_db_path
                    && final(self).finished == old(self).finished,
            },
    {
        match result {
            Ok((headers, rows)) => {
                self.preview_headers = headers;
                self.preview_rows = rows;
                self.preview_error = None;
            },
            Err(e) => {
                self.preview_error = Some(e);
                self.preview_headers.clear();
                self.preview_rows.clear();
            },
        }
        self.preview_pending = false;
    }

    /// What the preview area shows: the error if there is one, else the
    /// table if it has rows, else a spinner while loading.
    pub fn preview_display(&self) -> (r: PreviewDisplay)
        ensures
            match self.preview_error {
                Some(e) => r matches PreviewDisplay::Error(m) && m@ == e@,
                None => if self.preview_rows@.len() > 0 {
                    r is Table
                } else if self.preview_pending {
                    r is Loading
                } else {
                    r is Empty
                },
            },
    {
        match &self.preview_error {
            Some(e) => PreviewDisplay::Error(e.clone()),
            None => if self.preview_rows.len() > 0 {
                PreviewDisplay::Table
            } else if self.preview_pending {
                PreviewDisplay::Loading
            } else {
                PreviewDisplay::Empty
            },
        }
    }

    /// The second step's save button is enabled once a file is picked.
    pub fn second_stage_can_save(&self) -> (r: bool)
        ensures
            r == self.selected_db_path is Some,
    {
        self.selected_db_path.is_some()
    }

    /// The second step's save button (shown in the second step only): the
    /// chosen database type and file are to be stored, and the set-up goes to
    /// its last step. Without a picked file nothing happens.
    pub fn second_stage_save(&mut self) -> (r: Vec<ConfigVar>)
        requires
            old(self).stage == ConfStage::Second,
        ensures
            setup_step(*old(self), *final(self)),
            match old(self).selected_db_path {
                None => r@.len() == 0 && *final(self) == *old(self),
                Some(p) => r@.len() == 2 && r@[0] == ConfigVar::DBtype(old(self).selected_db_type)
                    && r@[1] == ConfigVar::DBpath(Some(p)) && *final(self) == (
                FirstConfigurationState { stage: ConfStage::Third, ..*old(self) }),
            },
    {
        let mut r: Vec<ConfigVar> = Vec::new();
        match &self.selected_db_path {
            None => {},
            Some(p) => {
                r.push(ConfigVar::DBtype(self.selected_db_type));
                r.push(ConfigVar::DBpath(Some(p.clone())));
                self.stage = ConfStage::Third;
            },
        }
        r
    }

    /// The last step's button (shown in the last step only) ends the set-up.
    pub fn finish(&mut self)
        requires
            old(self).stage == ConfStage::Third,
        ensures
            setup_step(*old(self), *final(self)),
            *final(self) == (FirstConfigurationState { finished: true, ..*old(self) }),
    {
        self.finished = true;
    }
}

} // verus!
