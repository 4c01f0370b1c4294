//! What is selected and which page shows it.
use vstd::prelude::*;
use vstd::string::*;

use crate::app::{
    AppSession, BlackholesApp, FileDocument, FileDocumentLoadState, FileExplorerState, ReturnView,
    Surface,
};
use crate::documents::{flush_requests, flushed, is_fresh_document};
use crate::effects::{Effect, FileDocumentSource, GitScope, SurfaceTarget};
use crate::ids::{contains_id, insert_unique, toggle_id, toggled, with_id, Id};
use crate::labels::NoteSaveState;
use crate::model::{find_task, find_workspace, workspace_at, AppTheme, Language};
use crate::paths::{components, parent, parent_of};
use crate::text::{join2, join4};

verus! {

// ---------------------------------------------------------------------------
// Picking
// ---------------------------------------------------------------------------
impl AppSession {
    /// `after` is `before` with a target selected; the project is expanded where
    /// `expand`, and the task, where there is one.
    pub open spec fn picks(
        before: Self,
        after: Self,
        workspace_id: Id,
        task_id: Option<Id>,
        repository_id: Option<Id>,
        expand: bool,
    ) -> bool {
        &&& after.expanded_workspace_ids@ == if expand {
            with_id(before.expanded_workspace_ids@, workspace_id)
        } else {
            before.expanded_workspace_ids@
        }
        &&& after.expanded_task_ids@ == match task_id {
            Some(task_id) => with_id(before.expanded_task_ids@, task_id),
            None => before.expanded_task_ids@,
        }
        &&& after == (AppSession {
            selected_workspace_id: Some(workspace_id),
            selected_task_id: task_id,
            selected_repository_id: repository_id,
            expanded_workspace_ids: after.expanded_workspace_ids,
            expanded_task_ids: after.expanded_task_ids,
            ..before
        })
    }

    pub(crate) fn pick(
        &mut self,
        workspace_id: Id,
        task_id: Option<Id>,
        repository_id: Option<Id>,
        expand: bool,
    )
        ensures
            Self::picks(*old(self), *final(self), workspace_id, task_id, repository_id, expand),
    {
        self.selected_workspace_id = Some(workspace_id);
        self.selected_task_id = task_id;
        self.selected_repository_id = repository_id;
        if expand {
            insert_unique(&mut self.expanded_workspace_ids, workspace_id);
        }
        if let Some(task_id) = task_id {
            insert_unique(&mut self.expanded_task_ids, task_id);
        }
    }
}

impl BlackholesApp {
    /// The target is a project as a whole.
    pub open spec fn is_project_target(task_id: Option<Id>, repository_id: Option<Id>) -> bool {
        task_id is None && repository_id is None
    }

    /// `after` is `before` with a target selected and its page chosen: the
    /// details of a task, the overview of a project, else the workbench. Going to
    /// an overview saves and closes the document and closes comparison and palette.
    pub open spec fn chooses(
        before: Self,
        after: Self,
        workspace_id: Id,
        task_id: Option<Id>,
        repository_id: Option<Id>,
        show_file_explorer: bool,
    ) -> bool {
        let overview = Self::is_project_target(task_id, repository_id) && !show_file_explorer;
        &&& AppSession::picks(
            before.session,
            after.session,
            workspace_id,
            task_id,
            repository_id,
            task_id is Some,
        )
        &&& after.effects@ == before.effects@ + if overview {
            flush_requests(before.active_file)
        } else {
            seq![]
        }
        &&& after == (BlackholesApp {
            session: after.session,
            surface: Surface {
                show_task_details: task_id is Some && repository_id is None,
                show_project_overview: overview,
                ..before.surface.plain()
            },
            active_file: if overview {
                None
            } else {
                before.active_file
            },
            active_diff: if overview {
                None
            } else {
                before.active_diff
            },
            quick_open: if overview {
                None
            } else {
                before.quick_open
            },
            effects: after.effects,
            ..before
        })
    }

    /// `after` is `before` with the explorer on the selection, or closed.
    pub open spec fn settles_explorer(before: Self, after: Self, show_file_explorer: bool) -> bool {
        if show_file_explorer {
            Self::follows_selection(before, after)
        } else {
            Self::closes_explorer(before, after)
        }
    }

    /// `after` is `before` with the session written and the window drawn.
    pub open spec fn saves_and_draws(before: Self, after: Self) -> bool {
        Self::requests(before, after, seq![before.persists(), Effect::Redraw])
    }

    pub(crate) fn save_and_draw(&mut self)
        ensures
            Self::saves_and_draws(*old(self), *final(self)),
    {
        self.persist_session();
        self.notify();
        assert(self.effects@ =~= old(self).effects@ + seq![old(self).persists(), Effect::Redraw]);
    }

    /// `after` is `before` with a target selected and shown.
    pub open spec fn selects_surface(
        before: Self,
        after: Self,
        workspace_id: Id,
        task_id: Option<Id>,
        repository_id: Option<Id>,
        show_file_explorer: bool,
    ) -> bool {
        exists|chosen: BlackholesApp, settled: BlackholesApp| #[trigger]
            Self::chooses(
                before,
                chosen,
                workspace_id,
                task_id,
                repository_id,
                show_file_explorer,
            ) && #[trigger] Self::settles_explorer(chosen, settled, show_file_explorer)
                && Self::saves_and_draws(settled, after)
    }

    fn choose_target(
        &mut self,
        workspace_id: Id,
        task_id: Option<Id>,
        repository_id: Option<Id>,
        show_file_explorer: bool,
    )
        ensures
            Self::chooses(
                *old(self),
                *final(self),
                workspace_id,
                task_id,
                repository_id,
                show_file_explorer,
            ),
    {
        let ghost before = *self;
        self.session.pick(workspace_id, task_id, repository_id, task_id.is_some());
        self.surface.clear();
        self.surface.show_task_details = task_id.is_some() && repository_id.is_none();
        if task_id.is_none() && repository_id.is_none() && !show_file_explorer {
            self.flush_active_file();
            self.active_file = None;
            self.active_diff = None;
            self.quick_open = None;
            self.surface.show_project_overview = true;
        } else {
            assert(self.effects@ =~= before.effects@ + Seq::<Effect>::empty());
        }
    }

    fn select_target_surface(
        &mut self,
        workspace_id: Id,
        task_id: Option<Id>,
        repository_id: Option<Id>,
        show_file_explorer: bool,
    )
        ensures
            Self::selects_surface(
                *old(self),
                *final(self),
                workspace_id,
                task_id,
                repository_id,
                show_file_explorer,
            ),
    {
        let ghost before = *self;
        self.choose_target(workspace_id, task_id, repository_id, show_file_explorer);
        let ghost chosen = *self;
        if show_file_explorer {
            self.sync_file_explorer_to_selection();
        } else {
            self.close_file_explorer();
        }
        let ghost settled = *self;
        self.save_and_draw();
        assert(Self::chooses(
            before,
            chosen,
            workspace_id,
            task_id,
            repository_id,
            show_file_explorer,
        ));
        assert(Self::settles_explorer(chosen, settled, show_file_explorer));
    }

    /// Selects a project, a task or a repository and shows its page.
    pub fn select_target(
        &mut self,
        workspace_id: Id,
        task_id: Option<Id>,
        repository_id: Option<Id>,
    )
        ensures
            Self::selects_surface(
                *old(self),
                *final(self),
                workspace_id,
                task_id,
                repository_id,
                false,
            ),
    {
        self.select_target_surface(workspace_id, task_id, repository_id, false);
    }

    /// The request to look at the selected repository.
    pub open spec fn inspects_selection(&self) -> Seq<Effect> {
        match self.repository_target() {
            Some((path, _)) => seq![Effect::InspectPath { path }],
            None => seq![],
        }
    }

    /// `after` is `before` with a repository selected and its files shown.
    pub open spec fn selects_repository(
        before: Self,
        after: Self,
        workspace_id: Id,
        task_id: Option<Id>,
        repository_id: Id,
    ) -> bool {
        exists|chosen: BlackholesApp| #[trigger]
            Self::selects_surface(before, chosen, workspace_id, task_id, Some(repository_id), true)
                && Self::requests(
                chosen,
                after,
                chosen.publishes_workbench() + chosen.inspects_selection(),
            )
    }

    /// Selects a repository and shows its files.
    pub fn select_repository_target(
        &mut self,
        workspace_id: Id,
        task_id: Option<Id>,
        repository_id: Id,
    )
        ensures
            Self::selects_repository(
                *old(self),
                *final(self),
                workspace_id,
                task_id,
                repository_id,
            ),
    {
        let ghost before = *self;
        self.select_target_surface(workspace_id, task_id, Some(repository_id), true);
        let ghost chosen = *self;
        assert(Self::selects_surface(
            before,
            chosen,
            workspace_id,
            task_id,
            Some(repository_id),
            true,
        ));
        self.publish_workbench_surface();
        if let Some((path, _)) = self.selected_repository_target() {
            self.emit(Effect::InspectPath { path });
        }
        assert(self.effects@ =~= chosen.effects@ + (chosen.publishes_workbench()
            + chosen.inspects_selection()));
    }

    // -----------------------------------------------------------------------
    // Expanding
    // -----------------------------------------------------------------------
    /// `after` is `before` with a project expanded or collapsed; what it holds
    /// is looked at where it is expanded.
    pub open spec fn toggles_workspace(before: Self, after: Self, workspace_id: Id) -> bool {
        let expanded = toggled(before.session.expanded_workspace_ids@, workspace_id);
        &&& after.session.expanded_workspace_ids@ == expanded
        &&& after.effects@ == before.effects@ + (if expanded.contains(workspace_id) {
            seq![Effect::InspectRepositories { scope: GitScope::Project { workspace_id } }]
        } else {
            seq![]
        }) + seq![before.persists(), Effect::Redraw]
        &&& after == (BlackholesApp {
            session: AppSession {
                expanded_workspace_ids: after.session.expanded_workspace_ids,
                navigation_expansion_initialized: true,
                ..before.session
            },
            effects: after.effects,
            ..before
        })
    }

    /// Expands or collapses a project.
    pub fn toggle_workspace_expanded(&mut self, workspace_id: Id)
        ensures
            Self::toggles_workspace(*old(self), *final(self), workspace_id),
    {
        let ghost before = *self;
        toggle_id(&mut self.session.expanded_workspace_ids, workspace_id);
        self.session.navigation_expansion_initialized = true;
        let expanded: bool = contains_id(&self.session.expanded_workspace_ids, workspace_id);
        if expanded {
            self.request_workspace_git_summaries(workspace_id);
        }
        self.save_and_draw();
        assert(self.effects@ =~= before.effects@ + (if expanded {
            seq![Effect::InspectRepositories { scope: GitScope::Project { workspace_id } }]
        } else {
            seq![]
        }) + seq![before.persists(), Effect::Redraw]);
    }

    /// `after` is `before` with a task expanded or collapsed.
    pub open spec fn toggles_task(before: Self, after: Self, task_id: Id) -> bool {
        let expanded = toggled(before.session.expanded_task_ids@, task_id);
        &&& after.session.expanded_task_ids@ == expanded
        &&& after.effects@ == before.effects@ + (if expanded.contains(task_id) {
            seq![Effect::InspectRepositories { scope: GitScope::Task { task_id } }]
        } else {
            seq![]
        }) + seq![before.persists(), Effect::Redraw]
        &&& after == (BlackholesApp {
            session: AppSession {
                expanded_task_ids: after.session.expanded_task_ids,
                navigation_expansion_initialized: true,
                ..before.session
            },
            effects: after.effects,
            ..before
        })
    }

    /// Expands or collapses a task.
    pub fn toggle_task_expanded(&mut self, task_id: Id)
        ensures
            Self::toggles_task(*old(self), *final(self), task_id),
    {
        let ghost before = *self;
        toggle_id(&mut self.session.expanded_task_ids, task_id);
        self.session.navigation_expansion_initialized = true;
        let expanded: bool = contains_id(&self.session.expanded_task_ids, task_id);
        if expanded {
            self.request_task_git_summaries(task_id);
        }
        self.save_and_draw();
        assert(self.effects@ =~= before.effects@ + (if expanded {
            seq![Effect::InspectRepositories { scope: GitScope::Task { task_id } }]
        } else {
            seq![]
        }) + seq![before.persists(), Effect::Redraw]);
    }

    /// `after` is `before` with everything collapsed.
    pub open spec fn collapses_all(before: Self, after: Self) -> bool {
        &&& after.session.expanded_workspace_ids@.len() == 0
        &&& after.session.expanded_task_ids@.len() == 0
        &&& after.effects@ == before.effects@ + seq![before.persists(), Effect::Redraw]
        &&& after == (BlackholesApp {
            session: AppSession {
                expanded_workspace_ids: after.session.expanded_workspace_ids,
                expanded_task_ids: after.session.expanded_task_ids,
                navigation_expansion_initialized: true,
                ..before.session
            },
            effects: after.effects,
            ..before
        })
    }

    /// Collapses everything.
    pub fn collapse_all_navigation(&mut self)
        ensures
            Self::collapses_all(*old(self), *final(self)),
    {
        self.session.expanded_workspace_ids = Vec::new();
        self.session.expanded_task_ids = Vec::new();
        self.session.navigation_expansion_initialized = true;
        self.save_and_draw();
    }
}

// ---------------------------------------------------------------------------
// Pages
// ---------------------------------------------------------------------------
impl BlackholesApp {
    /// `after` is `before` on the home page. The document is saved and closed.
    pub open spec fn goes_home(before: Self, after: Self) -> bool {
        &&& after.effects@ == before.effects@ + flush_requests(before.active_file) + seq![
            Effect::PublishSurface { target: SurfaceTarget::Home },
            Effect::Redraw,
        ]
        &&& after == (BlackholesApp {
            surface: before.surface.plain(),
            active_file: None,
            active_diff: None,
            quick_open: None,
            file_explorer: FileExplorerState { open: false, ..before.file_explorer },
            effects: after.effects,
            ..before
        })
    }

    /// Shows the home page.
    pub fn show_home(&mut self)
        ensures
            Self::goes_home(*old(self), *final(self)),
    {
        let ghost before = *self;
        self.flush_active_file();
        self.surface.clear();
        self.active_file = None;
        self.active_diff = None;
        self.quick_open = None;
        self.file_explorer.open = false;
        self.emit(Effect::PublishSurface { target: SurfaceTarget::Home });
        self.notify();
        assert(self.effects@ =~= before.effects@ + flush_requests(before.active_file) + seq![
            Effect::PublishSurface { target: SurfaceTarget::Home },
            Effect::Redraw,
        ]);
    }

    /// `after` is `before` with a project selected, looked at, and its overview
    /// chosen.
    pub open spec fn turns_to_project(before: Self, after: Self, workspace_id: Id) -> bool {
        &&& AppSession::picks(before.session, after.session, workspace_id, None, None, true)
        &&& after.effects@ == before.effects@ + seq![
            Effect::InspectRepositories { scope: GitScope::Project { workspace_id } },
        ]
        &&& after == (BlackholesApp {
            session: after.session,
            surface: Surface { show_project_overview: true, ..before.surface.plain() },
            effects: after.effects,
            ..before
        })
    }

    /// `after` is `before` with the overview of a project shown.
    pub open spec fn shows_project(before: Self, after: Self, workspace_id: Id) -> bool {
        if workspace_at(before.workspaces@, workspace_id) is None {
            after == before
        } else {
            exists|turned: BlackholesApp, closed: BlackholesApp| #[trigger]
                Self::turns_to_project(before, turned, workspace_id) && #[trigger]
                Self::closes_explorer(turned, closed) && Self::saves_and_draws(closed, after)
        }
    }

    /// Shows the overview of a project.
    pub fn show_project_overview(&mut self, workspace_id: Id)
        ensures
            Self::shows_project(*old(self), *final(self), workspace_id),
    {
        if find_workspace(&self.workspaces, workspace_id).is_none() {
            return ;
        }
        let ghost before = *self;
        self.session.pick(workspace_id, None, None, true);
        self.request_workspace_git_summaries(workspace_id);
        self.surface.clear();
        self.surface.show_project_overview = true;
        let ghost turned = *self;
        assert(Self::turns_to_project(before, turned, workspace_id));
        self.close_file_explorer();
        assert(Self::closes_explorer(turned, *self));
        self.save_and_draw();
    }

    /// The project has the task.
    pub open spec fn has_task(&self, workspace_id: Id, task_id: Id) -> bool {
        exists|i: int|
            0 <= i < self.tasks@.len() && (#[trigger] self.tasks@[i]).id == task_id
                && self.tasks@[i].workspace_id == workspace_id
    }

    fn finds_task(&self, workspace_id: Id, task_id: Id) -> (result: bool)
        ensures
            result == self.has_task(workspace_id, task_id),
    {
        let mut index: usize = 0;
        while index < self.tasks.len()
            invariant
                index <= self.tasks@.len(),
                forall|i: int|
                    0 <= i < index ==> !((#[trigger] self.tasks@[i]).id == task_id
                        && self.tasks@[i].workspace_id == workspace_id),
            decreases self.tasks@.len() - index,
        {
            if self.tasks[index].id == task_id && self.tasks[index].workspace_id == workspace_id {
                return true;
            }
            index += 1;
        }
        false
    }

    /// `after` is `before` with a task selected, looked at, and its details chosen.
    pub open spec fn turns_to_task(before: Self, after: Self, workspace_id: Id, task_id: Id) -> bool {
        &&& AppSession::picks(
            before.session,
            after.session,
            workspace_id,
            Some(task_id),
            None,
            true,
        )
        &&& after.effects@ == before.effects@ + seq![
            Effect::InspectRepositories { scope: GitScope::Project { workspace_id } },
            Effect::InspectRepositories { scope: GitScope::Task { task_id } },
        ]
        &&& after == (BlackholesApp {
            session: after.session,
            surface: Surface { show_task_details: true, ..before.surface.plain() },
            effects: after.effects,
            ..before
        })
    }

    /// `after` is `before` with a task seen and its details shown.
    pub open spec fn shows_task(before: Self, after: Self, workspace_id: Id, task_id: Id) -> bool {
        if !before.has_task(workspace_id, task_id) {
            after == before
        } else {
            exists|seen: BlackholesApp, turned: BlackholesApp, closed: BlackholesApp|
                {
                    &&& #[trigger] Self::sees_task(before, seen, task_id)
                    &&& #[trigger] Self::turns_to_task(seen, turned, workspace_id, task_id)
                    &&& #[trigger] Self::closes_explorer(turned, closed)
                    &&& Self::saves_and_draws(closed, after)
                }
        }
    }

    /// Shows the details of a task.
    pub fn show_task_details_for(&mut self, workspace_id: Id, task_id: Id)
        ensures
            Self::shows_task(*old(self), *final(self), workspace_id, task_id),
    {
        if !self.finds_task(workspace_id, task_id) {
            return ;
        }
        let ghost before = *self;
        self.mark_task_seen(task_id);
        let ghost seen = *self;
        assert(Self::sees_task(before, seen, task_id));
        self.session.pick(workspace_id, Some(task_id), None, true);
        self.request_workspace_git_summaries(workspace_id);
        self.request_task_git_summaries(task_id);
        self.surface.clear();
        self.surface.show_task_details = true;
        let ghost turned = *self;
        assert(turned.effects@ =~= seen.effects@ + seq![
            Effect::InspectRepositories { scope: GitScope::Project { workspace_id } },
            Effect::InspectRepositories { scope: GitScope::Task { task_id } },
        ]);
        assert(Self::turns_to_task(seen, turned, workspace_id, task_id));
        self.close_file_explorer();
        assert(Self::closes_explorer(turned, *self));
        self.save_and_draw();
    }

    /// Shows the details of the selected task.
    pub fn show_task_details(&mut self)
        ensures
            match old(self).task_selected() {
                Some(at) => Self::shows_task(
                    *old(self),
                    *final(self),
                    old(self).tasks@[at].workspace_id,
                    old(self).session.selected_task_id->0,
                ),
                None => *final(self) == *old(self),
            },
    {
        if let Some(task_id) = self.session.selected_task_id {
            if let Some(at) = find_task(&self.tasks, task_id) {
                let workspace_id: Id = self.tasks[at].workspace_id;
                self.show_task_details_for(workspace_id, task_id);
            }
        }
    }

    // -----------------------------------------------------------------------
    // Settings
    // -----------------------------------------------------------------------
    /// `after` is `before` on the settings page. What was shown is kept to
    /// return to, unless settings are shown already.
    pub open spec fn opens_settings(before: Self, after: Self) -> bool {
        &&& after.active_file == flushed(before.active_file)
        &&& after.effects@ == before.effects@ + flush_requests(before.active_file) + seq![
            Effect::Redraw,
        ]
        &&& after == (BlackholesApp {
            active_file: after.active_file,
            surface: Surface {
                show_settings: true,
                return_view: if before.surface.show_settings {
                    before.surface.return_view
                } else {
                    Some(
                        ReturnView {
                            show_terminal: before.surface.show_terminal,
                            show_task_details: before.surface.show_task_details,
                            show_project_overview: before.surface.show_project_overview,
                            project_settings: before.surface.project_settings,
                        },
                    )
                },
                ..before.surface.plain()
            },
            effects: after.effects,
            ..before
        })
    }

    /// Shows the settings.
    pub fn show_settings(&mut self)
        ensures
            Self::opens_settings(*old(self), *final(self)),
    {
        self.flush_active_file();
        if !self.surface.show_settings {
            self.surface.return_view =
            Some(
                ReturnView {
                    show_terminal: self.surface.show_terminal,
                    show_task_details: self.surface.show_task_details,
                    show_project_overview: self.surface.show_project_overview,
                    project_settings: self.surface.project_settings,
                },
            );
        }
        self.surface.clear();
        self.surface.show_settings = true;
        self.notify();
    }

    /// What the settings page returns to.
    pub open spec fn surface_behind_settings(surface: Surface) -> Surface {
        match surface.return_view {
            Some(view) => Surface {
                show_terminal: view.show_terminal,
                show_task_details: view.show_task_details,
                show_project_overview: view.show_project_overview,
                show_settings: false,
                project_settings: view.project_settings,
                return_view: None,
            },
            None => Surface { show_settings: false, ..surface },
        }
    }

    /// `after` is `before` with the settings left.
    pub open spec fn closes_settings(before: Self, after: Self) -> bool {
        if before.surface.show_settings {
            &&& after.effects@ == before.effects@ + seq![Effect::PublishNavigation]
                + after.publishes_surface() + seq![Effect::Redraw]
            &&& after == (BlackholesApp {
                surface: Self::surface_behind_settings(before.surface),
                effects: after.effects,
                ..before
            })
        } else {
            after == before
        }
    }

    /// Leaves the settings.
    pub fn close_settings(&mut self)
        ensures
            Self::closes_settings(*old(self), *final(self)),
    {
        if !self.surface.show_settings {
            return ;
        }
        let ghost before = *self;
        self.surface.show_settings = false;
        if let Some(view) = self.surface.return_view {
            self.surface.show_terminal = view.show_terminal;
            self.surface.show_task_details = view.show_task_details;
            self.surface.show_project_overview = view.show_project_overview;
            self.surface.project_settings = view.project_settings;
            self.surface.return_view = None;
        }
        self.emit(Effect::PublishNavigation);
        self.hydrate_active_workspace_surface();
        self.notify();
        assert(self.effects@ =~= before.effects@ + seq![Effect::PublishNavigation]
            + self.publishes_surface() + seq![Effect::Redraw]);
    }

    /// `after` is `before` in another language.
    pub open spec fn speaks(before: Self, after: Self, language: Language) -> bool {
        if before.session.language == language {
            after == before
        } else {
            Self::requests(
                BlackholesApp {
                    session: AppSession { language, ..before.session },
                    ..before
                },
                after,
                seq![before.persists(), Effect::PublishQuickOpen, Effect::Redraw],
            )
        }
    }

    /// Changes the language.
    pub fn set_language(&mut self, language: Language)
        ensures
            Self::speaks(*old(self), *final(self), language),
    {
        if self.session.language == language {
            return ;
        }
        self.session.language = language;
        self.persist_session();
        self.emit(Effect::PublishQuickOpen);
        self.notify();
        assert(self.effects@ =~= old(self).effects@ + seq![
            old(self).persists(),
            Effect::PublishQuickOpen,
            Effect::Redraw,
        ]);
    }

    /// `after` is `before` in another theme, everywhere.
    pub open spec fn changes_theme(before: Self, after: Self, theme: AppTheme) -> bool {
        if before.session.theme == theme {
            after == before
        } else {
            Self::requests(
                BlackholesApp {
                    session: AppSession { theme, ..before.session },
                    ..before
                },
                after,
                seq![
                    before.persists(),
                    Effect::ApplyTheme { theme },
                    Effect::ThemeChanged { theme },
                    Effect::PublishNavigation,
                ] + before.publishes_surface() + seq![Effect::PublishQuickOpen, Effect::Redraw],
            )
        }
    }

    /// Changes the theme.
    pub fn set_theme(&mut self, theme: AppTheme)
        ensures
            Self::changes_theme(*old(self), *final(self), theme),
    {
        if self.session.theme == theme {
            return ;
        }
        let ghost before = *self;
        self.session.theme = theme;
        self.persist_session();
        self.emit(Effect::ApplyTheme { theme });
        self.emit(Effect::ThemeChanged { theme });
        self.emit(Effect::PublishNavigation);
        self.hydrate_active_workspace_surface();
        self.emit(Effect::PublishQuickOpen);
        self.notify();
        assert(self.effects@ =~= before.effects@ + (seq![
            before.persists(),
            Effect::ApplyTheme { theme },
            Effect::ThemeChanged { theme },
            Effect::PublishNavigation,
        ] + before.publishes_surface() + seq![Effect::PublishQuickOpen, Effect::Redraw]));
    }

    // -----------------------------------------------------------------------
    // The settings and the instructions of a project
    // -----------------------------------------------------------------------
    /// `after` is `before` with the settings of a project chosen. The document
    /// is saved and closed.
    pub open spec fn turns_to_project_settings(before: Self, after: Self, workspace_id: Id) -> bool {
        &&& AppSession::picks(before.session, after.session, workspace_id, None, None, true)
        &&& after.effects@ == before.effects@ + flush_requests(before.active_file)
        &&& after == (BlackholesApp {
            session: after.session,
            surface: Surface { project_settings: Some(workspace_id), ..before.surface.plain() },
            active_file: None,
            active_diff: None,
            quick_open: None,
            effects: after.effects,
            ..before
        })
    }

    /// `after` is `before` with the problem shown, where there is one.
    pub open spec fn reports_if(before: Self, after: Self, what: Seq<char>, problem: Option<Seq<char>>) -> bool {
        match problem {
            Some(problem) => Self::reports(before, after, what + problem, true),
            None => after == before,
        }
    }

    /// `after` is `before` with the settings of a project shown. `preparation`
    /// is what came of writing its instruction files.
    pub open spec fn opens_project_settings(
        before: Self,
        after: Self,
        workspace_id: Id,
        problem: Option<Seq<char>>,
    ) -> bool {
        if workspace_at(before.workspaces@, workspace_id) is None {
            after == before
        } else {
            exists|told: BlackholesApp, turned: BlackholesApp, closed: BlackholesApp|
                {
                    &&& #[trigger] Self::reports_if(
                        before,
                        told,
                        "Could not prepare the project settings: "@,
                        problem,
                    )
                    &&& #[trigger] Self::turns_to_project_settings(told, turned, workspace_id)
                    &&& #[trigger] Self::closes_explorer(turned, closed)
                    &&& Self::requests(
                        closed,
                        after,
                        seq![
                            closed.persists(),
                            Effect::PublishSurface {
                                target: SurfaceTarget::ProjectSettings { workspace_id },
                            },
                            Effect::Redraw,
                        ],
                    )
                }
        }
    }

    /// The problem of an outcome.
    pub open spec fn problem_of(outcome: Result<(), String>) -> Option<Seq<char>> {
        match outcome {
            Ok(_) => None,
            Err(error) => Some(error@),
        }
    }

    /// Shows the settings of a project, once its instruction files were prepared.
    pub fn open_project_settings(&mut self, workspace_id: Id, preparation: Result<(), String>)
        ensures
            Self::opens_project_settings(
                *old(self),
                *final(self),
                workspace_id,
                Self::problem_of(preparation),
            ),
    {
        if find_workspace(&self.workspaces, workspace_id).is_none() {
            return ;
        }
        let ghost before = *self;
        if let Err(error) = preparation {
            let message = join2("Could not prepare the project settings: ", error.as_str());
            self.set_status(message, true);
        }
        let ghost told = *self;
        assert(Self::reports_if(
            before,
            told,
            "Could not prepare the project settings: "@,
            Self::problem_of(preparation),
        ));
        self.flush_active_file();
        self.session.pick(workspace_id, None, None, true);
        self.surface.clear();
        self.surface.project_settings = Some(workspace_id);
        self.active_file = None;
        self.active_diff = None;
        self.quick_open = None;
        let ghost turned = *self;
        assert(Self::turns_to_project_settings(told, turned, workspace_id));
        self.close_file_explorer();
        let ghost closed = *self;
        assert(Self::closes_explorer(turned, closed));
        self.persist_session();
        self.emit(
            Effect::PublishSurface { target: SurfaceTarget::ProjectSettings { workspace_id } },
        );
        self.notify();
        assert(self.effects@ =~= closed.effects@ + seq![
            closed.persists(),
            Effect::PublishSurface { target: SurfaceTarget::ProjectSettings { workspace_id } },
            Effect::Redraw,
        ]);
    }

    /// The document shows the given instructions.
    pub open spec fn shows_instructions(&self, source: FileDocumentSource) -> bool {
        self.active_file matches Some(document) && document.source == source
    }

    /// `after` is `before` with the workbench chosen for a project.
    pub open spec fn turns_to_instructions(before: Self, after: Self, workspace_id: Id) -> bool {
        &&& AppSession::picks(before.session, after.session, workspace_id, None, None, true)
        &&& after == (BlackholesApp {
            session: after.session,
            surface: before.surface.plain(),
            ..before
        })
    }

    /// `after` is `before` with the instructions in the editor, unless they are
    /// there already.
    pub open spec fn reads_instructions(
        before: Self,
        after: Self,
        root: Seq<char>,
        path: String,
        source: FileDocumentSource,
    ) -> bool {
        if before.shows_instructions(source) {
            Self::requests(before, after, seq![Effect::Redraw])
        } else {
            let request_id = Self::next(before.next_file_request_id);
            &&& after.active_file matches Some(document) && is_fresh_document(
                document,
                root,
                path@,
                source,
                "markdown"@,
                request_id,
            ) && after.effects@ == before.effects@ + flush_requests(before.active_file) + seq![
                Effect::ReadFile { root: document.root, path, source, request_id },
                Effect::Redraw,
            ]
            &&& after == (BlackholesApp {
                active_file: after.active_file,
                next_file_request_id: request_id,
                effects: after.effects,
                ..before
            })
        }
    }

    /// `after` is `before` with instructions of a project opened. `prepared` is
    /// the path of their file.
    pub open spec fn opens_instructions(
        before: Self,
        after: Self,
        workspace_id: Id,
        path: String,
        source: FileDocumentSource,
    ) -> bool {
        match parent_of(path@) {
            None => Self::reports(
                before,
                after,
                "The project does not have a valid root directory"@,
                true,
            ),
            Some(root) => exists|turned: BlackholesApp, closed: BlackholesApp, saved: BlackholesApp|
                {
                    &&& #[trigger] Self::turns_to_instructions(before, turned, workspace_id)
                    &&& #[trigger] Self::closes_explorer(turned, closed)
                    &&& #[trigger] Self::requests(closed, saved, seq![closed.persists()])
                    &&& Self::reads_instructions(saved, after, root, path, source)
                },
        }
    }

    fn open_instructions(&mut self, workspace_id: Id, path: String, source: FileDocumentSource)
        ensures
            Self::opens_instructions(*old(self), *final(self), workspace_id, path, source),
    {
        let ghost before = *self;
        let ghost wanted = path;
        let root = match parent(path.as_str()) {
            Some(root) => root,
            None => {
                self.set_status(
                    "The project does not have a valid root directory".to_string(),
                    true,
                );
                return ;
            },
        };
        self.session.pick(workspace_id, None, None, true);
        self.surface.clear();
        let ghost turned = *self;
        assert(Self::turns_to_instructions(before, turned, workspace_id));
        self.close_file_explorer();
        let ghost closed = *self;
        assert(Self::closes_explorer(turned, closed));
        self.persist_session();
        let ghost saved = *self;
        assert(Self::requests(closed, saved, seq![closed.persists()]));
        let shown: bool = match &self.active_file {
            Some(document) => document.source == source,
            None => false,
        };
        if shown {
            self.notify();
            assert(Self::reads_instructions(saved, *self, root@, wanted, source));
            return ;
        }
        self.flush_active_file();
        self.next_file_request_id = self.next_file_request_id.wrapping_add(1);
        let request_id: u64 = self.next_file_request_id;
        self.active_file =
        Some(
            FileDocument {
                root: root.clone(),
                path: path.clone(),
                source,
                language: "markdown".to_string(),
                editor: None,
                load_state: FileDocumentLoadState::Loading,
                revision: 0,
                dirty: false,
                save_state: NoteSaveState::Saved,
                request_id,
            },
        );
        self.emit(Effect::ReadFile { root, path, source, request_id });
        self.notify();
        assert(self.effects@ =~= saved.effects@ + flush_requests(saved.active_file) + seq![
            Effect::ReadFile { root, path: wanted, source, request_id },
            Effect::Redraw,
        ]);
        assert(Self::reads_instructions(saved, *self, root@, wanted, source));
    }

    /// Opens the instructions of a project, once their file was prepared.
    pub fn open_project_instructions(&mut self, workspace_id: Id, prepared: Result<String, String>)
        ensures
            if workspace_at(old(self).workspaces@, workspace_id) is None {
                *final(self) == *old(self)
            } else {
                match prepared {
                    Ok(path) => Self::opens_instructions(
                        *old(self),
                        *final(self),
                        workspace_id,
                        path,
                        FileDocumentSource::ProjectInstructions(workspace_id),
                    ),
                    Err(error) => Self::reports(
                        *old(self),
                        *final(self),
                        "Could not prepare "@ + old(self).agent_labels.instructions_file@ + ": "@
                            + error@,
                        true,
                    ),
                }
            },
    {
        if find_workspace(&self.workspaces, workspace_id).is_none() {
            return ;
        }
        match prepared {
            Ok(path) => self.open_instructions(
                workspace_id,
                path,
                FileDocumentSource::ProjectInstructions(workspace_id),
            ),
            Err(error) => {
                let message = join4(
                    "Could not prepare ",
                    self.agent_labels.instructions_file.as_str(),
                    ": ",
                    error.as_str(),
                );
                self.set_status(message, true);
            },
        }
    }

    /// Opens the instructions that the tasks of a project share, once their file
    /// was prepared.
    pub fn open_project_task_instructions(
        &mut self,
        workspace_id: Id,
        prepared: Result<String, String>,
    )
        ensures
            if workspace_at(old(self).workspaces@, workspace_id) is None {
                *final(self) == *old(self)
            } else {
                match prepared {
                    Ok(path) => Self::opens_instructions(
                        *old(self),
                        *final(self),
                        workspace_id,
                        path,
                        FileDocumentSource::ProjectTaskInstructions(workspace_id),
                    ),
                    Err(error) => Self::reports(
                        *old(self),
                        *final(self),
                        "Could not prepare the shared task "@ + old(self).agent_labels.instructions_file@ + ": "@ + error@,
                        true,
                    ),
                }
            },
    {
        if find_workspace(&self.workspaces, workspace_id).is_none() {
            return ;
        }
        match prepared {
            Ok(path) => self.open_instructions(
                workspace_id,
                path,
                FileDocumentSource::ProjectTaskInstructions(workspace_id),
            ),
            Err(error) => {
                let message = join4(
                    "Could not prepare the shared task ",
                    self.agent_labels.instructions_file.as_str(),
                    ": ",
                    error.as_str(),
                );
                self.set_status(message, true);
            },
        }
    }
}

// ---------------------------------------------------------------------------
// Laws
// ---------------------------------------------------------------------------
/// Leaving the settings brings back the page they were opened from.
pub proof fn law_settings_return(
    before: BlackholesApp,
    within: BlackholesApp,
    after: BlackholesApp,
)
    requires
        BlackholesApp::opens_settings(before, within),
        BlackholesApp::closes_settings(within, after),
        !before.surface.show_settings,
    ensures
        within.surface_shown() == Some(SurfaceTarget::Settings),
        after.surface == (Surface { return_view: None, ..before.surface }),
        after.surface_shown() == before.surface_shown(),
{
}

/// Whatever is shown next, at most one page is chosen.
pub proof fn law_one_page(
    before: BlackholesApp,
    after: BlackholesApp,
    workspace_id: Id,
    task_id: Option<Id>,
    repository_id: Option<Id>,
    show_file_explorer: bool,
)
    requires
        BlackholesApp::selects_surface(
            before,
            after,
            workspace_id,
            task_id,
            repository_id,
            show_file_explorer,
        ),
    ensures
        after.surface.one_page(),
        after.session.selected_workspace_id == Some(workspace_id),
        after.session.selected_task_id == task_id,
        after.session.selected_repository_id == repository_id,
{
}

// ---------------------------------------------------------------------------
// What a selection shows
// ---------------------------------------------------------------------------
/// What is selected is what was chosen, and its page is shown: the overview of a
/// project, the details of a task. A task that is selected is expanded, and so is its
/// project. Going to an overview hands what was typed over for saving.
pub proof fn law_target_selected(
    before: BlackholesApp,
    after: BlackholesApp,
    workspace_id: Id,
    task_id: Option<Id>,
    repository_id: Option<Id>,
    show_file_explorer: bool,
)
    requires
        BlackholesApp::selects_surface(
            before,
            after,
            workspace_id,
            task_id,
            repository_id,
            show_file_explorer,
        ),
    ensures
        after.session.selected_workspace_id == Some(workspace_id),
        after.session.selected_task_id == task_id,
        after.session.selected_repository_id == repository_id,
        task_id matches Some(task) && repository_id is None ==> after.surface_shown() == Some(
            SurfaceTarget::TaskDetails { task_id: task_id->0 },
        ),
        task_id is None && repository_id is None && !show_file_explorer ==> after.surface_shown()
            == Some(SurfaceTarget::ProjectOverview { workspace_id }),
        repository_id is Some ==> !after.surface.show_terminal && !after.surface.show_settings
            && !after.surface.show_task_details && !after.surface.show_project_overview
            && after.surface.project_settings is None,
        !show_file_explorer ==> !after.file_explorer.open && after.workspaces == before.workspaces
            && after.tasks == before.tasks && after.app_toasts == before.app_toasts
            && after.session.unseen_task_ids == before.session.unseen_task_ids && after.busy
            == before.busy && after.running == before.running,
        task_id is Some ==> after.session.expanded_task_ids@.contains(task_id->0)
            && after.session.expanded_workspace_ids@.contains(workspace_id),
        forall|id: Id|
            before.session.expanded_workspace_ids@.contains(id)
                ==> #[trigger] after.session.expanded_workspace_ids@.contains(id),
        forall|id: Id|
            before.session.expanded_task_ids@.contains(id)
                ==> #[trigger] after.session.expanded_task_ids@.contains(id),
        after.session.terminals == before.session.terminals,
        after.session.docks == before.session.docks,
        task_id is None && repository_id is None && !show_file_explorer ==> after.active_file is None
            && after.active_diff is None && after.quick_open is None,
        (before.active_file matches Some(file) && file.dirty && file.editor is Some) && task_id is None
            && repository_id is None && !show_file_explorer ==> crate::documents::saves_text(
            after.effects@[before.effects@.len() as int],
            before.active_file->0,
        ),
        exists|i: int|
            before.effects@.len() <= i < after.effects@.len() && (
            #[trigger] after.effects@[i]) is PersistSession,
{
    let (chosen, settled) = choose|chosen: BlackholesApp, settled: BlackholesApp| #[trigger]
        BlackholesApp::chooses(
            before,
            chosen,
            workspace_id,
            task_id,
            repository_id,
            show_file_explorer,
        ) && #[trigger] BlackholesApp::settles_explorer(chosen, settled, show_file_explorer)
            && BlackholesApp::saves_and_draws(settled, after);
    crate::ids::law_insert_unique(before.session.expanded_workspace_ids@, workspace_id);
    if let Some(task) = task_id {
        crate::ids::law_insert_unique(before.session.expanded_task_ids@, task);
    }
    if show_file_explorer {
        lemma_followed(chosen, settled);
    }
    assert(after.effects@[settled.effects@.len() as int] is PersistSession);
    let flush = flush_requests(before.active_file);
    if flush.len() > 0 && task_id is None && repository_id is None && !show_file_explorer {
        assert(after.effects@[before.effects@.len() as int] == flush[0]);
    }
}

/// Following the selection leaves the session and the page as they are.
proof fn lemma_followed(before: BlackholesApp, after: BlackholesApp)
    requires
        BlackholesApp::follows_selection(before, after),
    ensures
        after.session == before.session,
        after.surface == before.surface,
        before.effects@.len() <= after.effects@.len(),
        before.effects@.is_prefix_of(after.effects@),
{
    match before.repository_target() {
        Some((root, label)) => {
            let (pointed, listed, asked) = choose|
                pointed: BlackholesApp,
                listed: BlackholesApp,
                asked: BlackholesApp,
            |
                {
                    &&& #[trigger] BlackholesApp::points_explorer(before, pointed, root, label@)
                    &&& #[trigger] BlackholesApp::lists_root(pointed, listed, root)
                    &&& #[trigger] BlackholesApp::asks_if_shown(listed, asked)
                    &&& BlackholesApp::shows_workbench(asked, after)
                };
            assert(before.effects@ =~= after.effects@.take(before.effects@.len() as int));
        },
        None => {
            assert(before.effects@ =~= after.effects@.take(before.effects@.len() as int));
        },
    }
}

/// A repository that is selected is browsed: the explorer shows the directory of the
/// repository, or of its worktree where a task is selected, under its name, and git is
/// asked about it.
pub proof fn law_repository_browsed(
    before: BlackholesApp,
    after: BlackholesApp,
    workspace_id: Id,
    task_id: Option<Id>,
    repository_id: Id,
    path: String,
    name: String,
)
    requires
        BlackholesApp::selects_repository(before, after, workspace_id, task_id, repository_id),
        after.repository_target() == Some((path, name)),
    ensures
        after.session.selected_repository_id == Some(repository_id),
        after.session.selected_task_id == task_id,
        after.session.selected_workspace_id == Some(workspace_id),
        after.file_explorer.open,
        after.file_explorer.root matches Some(root) && components(root@) == components(path@),
        after.file_explorer.root_label@ == name@,
        after.effects@.last() == (Effect::InspectPath { path }),
{
    let chosen = choose|chosen: BlackholesApp| #[trigger]
        BlackholesApp::selects_surface(
            before,
            chosen,
            workspace_id,
            task_id,
            Some(repository_id),
            true,
        ) && BlackholesApp::requests(
            chosen,
            after,
            chosen.publishes_workbench() + chosen.inspects_selection(),
        );
    law_target_selected(before, chosen, workspace_id, task_id, Some(repository_id), true);
    let (picked, settled) = choose|picked: BlackholesApp, settled: BlackholesApp| #[trigger]
        BlackholesApp::chooses(
            before,
            picked,
            workspace_id,
            task_id,
            Some(repository_id),
            true,
        ) && #[trigger] BlackholesApp::settles_explorer(picked, settled, true)
            && BlackholesApp::saves_and_draws(settled, chosen);
    lemma_followed(picked, settled);
    lemma_target_kept(picked, settled);
    assert(picked.repository_target() == Some((path, name)));
    crate::browsing::law_explorer_opened(picked, settled, path, name@);
}

proof fn lemma_target_kept(before: BlackholesApp, after: BlackholesApp)
    requires
        BlackholesApp::follows_selection(before, after),
    ensures
        after.repository_target() == before.repository_target(),
        after.workspaces == before.workspaces,
        after.tasks == before.tasks,
{
    lemma_followed(before, after);
    if let Some((root, label)) = before.repository_target() {
        let (pointed, listed, asked) = choose|
            pointed: BlackholesApp,
            listed: BlackholesApp,
            asked: BlackholesApp,
        |
            {
                &&& #[trigger] BlackholesApp::points_explorer(before, pointed, root, label@)
                &&& #[trigger] BlackholesApp::lists_root(pointed, listed, root)
                &&& #[trigger] BlackholesApp::asks_if_shown(listed, asked)
                &&& BlackholesApp::shows_workbench(asked, after)
            };
        assert(after.workspaces == pointed.workspaces);
    }
}

/// In a task the target is the worktree of the repository, else the repository itself;
/// its name is that of the repository.
pub proof fn law_repository_target(app: BlackholesApp, workspace: int, repository: int)
    requires
        app.workspace_selected() == Some(workspace),
        0 <= workspace < app.workspaces@.len(),
        app.session.selected_repository_id == Some(
            app.workspaces@[workspace].repositories@[repository].id,
        ),
        0 <= repository < app.workspaces@[workspace].repositories@.len(),
        forall|i: int|
            0 <= i < repository ==> (#[trigger] app.workspaces@[workspace].repositories@[i]).id
                != app.workspaces@[workspace].repositories@[repository].id,
    ensures
        app.session.selected_task_id is None ==> app.repository_target() == Some(
            (
                app.workspaces@[workspace].repositories@[repository].path,
                app.workspaces@[workspace].repositories@[repository].name,
            ),
        ),
        app.task_selected() is Some ==> (app.repository_target() matches Some(target) ==> target.1
            == app.workspaces@[workspace].repositories@[repository].name && exists|i: int|
            0 <= i < app.tasks@[app.task_selected()->0].repositories@.len() && (
            #[trigger] app.tasks@[app.task_selected()->0].repositories@[i]).repository_id
                == app.workspaces@[workspace].repositories@[repository].id
                && app.tasks@[app.task_selected()->0].repositories@[i].worktree_path
                == target.0),
{
    let repositories = app.workspaces@[workspace].repositories@;
    let id = repositories[repository].id;
    crate::search::lemma_first_where(repositories, crate::model::repository_is(id), 0);
    assert(crate::model::repository_is(id)(repositories[repository]));
    if let Some(task) = app.task_selected() {
        crate::search::lemma_first_where(
            app.tasks@[task].repositories@,
            crate::model::task_repository_is(id),
            0,
        );
        let worktrees = app.tasks@[task].repositories@;
        if let Some(at) = crate::model::task_repository_at(worktrees, id) {
            assert(crate::model::task_repository_is(id)(worktrees[at]));
            assert(app.tasks@[task].repositories@[at].repository_id == id);
        }
    }
}

/// Turning a project over in the tree leaves the other projects, and what is selected,
/// as they are; what an expanded one holds is looked at. Twice is as before.
pub proof fn law_project_toggled(
    before: BlackholesApp,
    once: BlackholesApp,
    twice: BlackholesApp,
    workspace_id: Id,
    other: Id,
)
    requires
        BlackholesApp::toggles_workspace(before, once, workspace_id),
        BlackholesApp::toggles_workspace(once, twice, workspace_id),
        before.session.expanded_workspace_ids@.no_duplicates(),
    ensures
        once.session.expanded_workspace_ids@.contains(workspace_id)
            <==> !before.session.expanded_workspace_ids@.contains(workspace_id),
        other != workspace_id ==> (once.session.expanded_workspace_ids@.contains(other)
            <==> before.session.expanded_workspace_ids@.contains(other)),
        twice.session.expanded_workspace_ids@.contains(other)
            <==> before.session.expanded_workspace_ids@.contains(other),
        once.session.expanded_task_ids == before.session.expanded_task_ids,
        once.session.selected_workspace_id == before.session.selected_workspace_id,
        once.session.selected_task_id == before.session.selected_task_id,
        once.session.expanded_workspace_ids@.contains(workspace_id) ==> BlackholesApp::asked(
            before,
            once,
        ).contains(Effect::InspectRepositories { scope: GitScope::Project { workspace_id } }),
{
    crate::ids::law_toggle(before.session.expanded_workspace_ids@, workspace_id, other);
    if once.session.expanded_workspace_ids@.contains(workspace_id) {
        assert(BlackholesApp::asked(before, once)[0] is InspectRepositories);
    }
}

/// Turning a task over in the tree does to tasks what it does to projects.
pub proof fn law_task_toggled(
    before: BlackholesApp,
    once: BlackholesApp,
    twice: BlackholesApp,
    task_id: Id,
    other: Id,
)
    requires
        BlackholesApp::toggles_task(before, once, task_id),
        BlackholesApp::toggles_task(once, twice, task_id),
        before.session.expanded_task_ids@.no_duplicates(),
    ensures
        once.session.expanded_task_ids@.contains(task_id)
            <==> !before.session.expanded_task_ids@.contains(task_id),
        other != task_id ==> (once.session.expanded_task_ids@.contains(other)
            <==> before.session.expanded_task_ids@.contains(other)),
        twice.session.expanded_task_ids@.contains(other)
            <==> before.session.expanded_task_ids@.contains(other),
        once.session.expanded_workspace_ids == before.session.expanded_workspace_ids,
        once.session.selected_task_id == before.session.selected_task_id,
        once.session.expanded_task_ids@.contains(task_id) ==> BlackholesApp::asked(
            before,
            once,
        ).contains(Effect::InspectRepositories { scope: GitScope::Task { task_id } }),
{
    crate::ids::law_toggle(before.session.expanded_task_ids@, task_id, other);
    if once.session.expanded_task_ids@.contains(task_id) {
        assert(BlackholesApp::asked(before, once)[0] is InspectRepositories);
    }
}

/// Collapsing everything leaves no project and no task expanded, and the selection as
/// it is.
pub proof fn law_all_collapsed(before: BlackholesApp, after: BlackholesApp)
    requires
        BlackholesApp::collapses_all(before, after),
    ensures
        forall|id: Id| !(#[trigger] after.session.expanded_workspace_ids@.contains(id)),
        forall|id: Id| !(#[trigger] after.session.expanded_task_ids@.contains(id)),
        after.session.selected_workspace_id == before.session.selected_workspace_id,
        after.session.selected_task_id == before.session.selected_task_id,
        after.session.terminals == before.session.terminals,
        after.surface == before.surface,
{
}

/// The home page is shown with nothing open on it, and what was typed is handed over
/// for saving; what is selected stays.
pub proof fn law_home_shown(before: BlackholesApp, after: BlackholesApp)
    requires
        BlackholesApp::goes_home(before, after),
    ensures
        after.surface_shown() == Some(SurfaceTarget::Home),
        after.active_file is None,
        after.active_diff is None,
        after.quick_open is None,
        after.session == before.session,
        (before.active_file matches Some(file) && file.dirty && file.editor is Some)
            ==> crate::documents::saves_text(
            after.effects@[before.effects@.len() as int],
            before.active_file->0,
        ),
        BlackholesApp::asked(before, after).contains(
            Effect::PublishSurface { target: SurfaceTarget::Home },
        ),
{
    let flush = flush_requests(before.active_file);
    if flush.len() > 0 {
        assert(after.effects@[before.effects@.len() as int] == flush[0]);
    }
    assert(BlackholesApp::asked(before, after)[flush.len() as int] is PublishSurface);
}

/// The overview of a known project is shown, with the project selected and expanded.
pub proof fn law_project_shown(before: BlackholesApp, after: BlackholesApp, workspace_id: Id, at: int)
    requires
        BlackholesApp::shows_project(before, after, workspace_id),
        0 <= at < before.workspaces@.len(),
        before.workspaces@[at].id == workspace_id,
    ensures
        after.surface_shown() == Some(SurfaceTarget::ProjectOverview { workspace_id }),
        after.session.selected_workspace_id == Some(workspace_id),
        after.session.selected_task_id is None,
        after.session.selected_repository_id is None,
        after.session.expanded_workspace_ids@.contains(workspace_id),
        !after.file_explorer.open,
{
    crate::search::lemma_first_where(before.workspaces@, crate::model::workspace_is(workspace_id), 0);
    assert(crate::model::workspace_is(workspace_id)(before.workspaces@[at]));
    crate::ids::law_insert_unique(before.session.expanded_workspace_ids@, workspace_id);
}

/// The details of a known task are shown, with the task selected and expanded, and it
/// counts as seen.
pub proof fn law_task_shown(
    before: BlackholesApp,
    after: BlackholesApp,
    workspace_id: Id,
    task_id: Id,
    at: int,
)
    requires
        BlackholesApp::shows_task(before, after, workspace_id, task_id),
        0 <= at < before.tasks@.len(),
        before.tasks@[at].id == task_id,
        before.tasks@[at].workspace_id == workspace_id,
    ensures
        after.surface_shown() == Some(SurfaceTarget::TaskDetails { task_id }),
        after.session.selected_workspace_id == Some(workspace_id),
        after.session.selected_task_id == Some(task_id),
        after.session.selected_repository_id is None,
        after.session.expanded_task_ids@.contains(task_id),
        after.session.expanded_workspace_ids@.contains(workspace_id),
        !after.session.unseen_task_ids@.contains(task_id),
{
    assert(before.has_task(workspace_id, task_id));
    let (seen, turned, closed) = choose|
        seen: BlackholesApp,
        turned: BlackholesApp,
        closed: BlackholesApp,
    |
        {
            &&& #[trigger] BlackholesApp::sees_task(before, seen, task_id)
            &&& #[trigger] BlackholesApp::turns_to_task(seen, turned, workspace_id, task_id)
            &&& #[trigger] BlackholesApp::closes_explorer(turned, closed)
            &&& BlackholesApp::saves_and_draws(closed, after)
        };
    crate::toasts::law_seen_task(before, seen, task_id);
    crate::ids::law_insert_unique(seen.session.expanded_workspace_ids@, workspace_id);
    crate::ids::law_insert_unique(seen.session.expanded_task_ids@, task_id);
}

/// The settings are in front once they are opened, and what was typed is handed over
/// for saving.
pub proof fn law_settings_shown(before: BlackholesApp, after: BlackholesApp)
    requires
        BlackholesApp::opens_settings(before, after),
    ensures
        after.surface_shown() == Some(SurfaceTarget::Settings),
        after.session == before.session,
        (before.active_file matches Some(file) && file.dirty && file.editor is Some)
            ==> crate::documents::saves_text(
            after.effects@[before.effects@.len() as int],
            before.active_file->0,
        ),
{
    let flush = flush_requests(before.active_file);
    if flush.len() > 0 {
        assert(after.effects@[before.effects@.len() as int] == flush[0]);
    }
}

/// The settings of a known project are in front once they are opened; a problem on the
/// way is told.
pub proof fn law_project_settings_shown(
    before: BlackholesApp,
    after: BlackholesApp,
    workspace_id: Id,
    problem: Option<Seq<char>>,
    at: int,
)
    requires
        BlackholesApp::opens_project_settings(before, after, workspace_id, problem),
        0 <= at < before.workspaces@.len(),
        before.workspaces@[at].id == workspace_id,
    ensures
        after.surface_shown() == Some(SurfaceTarget::ProjectSettings { workspace_id }),
        after.session.selected_workspace_id == Some(workspace_id),
        problem is Some ==> (after.status matches Some(status) && status.error),
        problem is None ==> after.status == before.status,
        after.active_file is None,
{
    crate::search::lemma_first_where(before.workspaces@, crate::model::workspace_is(workspace_id), 0);
    assert(crate::model::workspace_is(workspace_id)(before.workspaces@[at]));
}

/// The language and the theme are what was chosen, the session is written where that
/// is new, and everything else of the session stays.
pub proof fn law_language_and_theme(
    before: BlackholesApp,
    spoken: BlackholesApp,
    painted: BlackholesApp,
    language: Language,
    theme: AppTheme,
)
    requires
        BlackholesApp::speaks(before, spoken, language),
        BlackholesApp::changes_theme(before, painted, theme),
    ensures
        spoken.session.language == language,
        spoken.session.theme == before.session.theme,
        painted.session.theme == theme,
        painted.session.language == before.session.language,
        before.session.language != language ==> (BlackholesApp::asked(before, spoken)[0]) is PersistSession,
        before.session.theme != theme ==> (BlackholesApp::asked(before, painted)[0]) is PersistSession
            && BlackholesApp::asked(before, painted).contains(Effect::ApplyTheme { theme })
            && BlackholesApp::asked(before, painted).contains(Effect::ThemeChanged { theme }),
        spoken.surface == before.surface,
        painted.surface == before.surface,
{
    if before.session.theme != theme {
        assert(BlackholesApp::asked(before, painted)[1] == (Effect::ApplyTheme { theme }));
        assert(BlackholesApp::asked(before, painted)[2] == (Effect::ThemeChanged { theme }));
    }
}

/// Instructions that are shown already are not read again; others are read under
/// a new request for their own file, after what was typed elsewhere is saved.
pub proof fn law_instructions_read(
    before: BlackholesApp,
    after: BlackholesApp,
    root: Seq<char>,
    path: String,
    source: FileDocumentSource,
)
    requires
        BlackholesApp::reads_instructions(before, after, root, path, source),
    ensures
        before.shows_instructions(source) ==> after.active_file == before.active_file
            && BlackholesApp::asked(before, after) =~= seq![Effect::Redraw],
        !before.shows_instructions(source) ==> {
            &&& after.active_file matches Some(file)
            &&& file.path@ == path@
            &&& file.root@ == root
            &&& file.source == source
            &&& file.editor is None
            &&& file.request_id == after.next_file_request_id
            &&& after.effects@.len() >= 2
            &&& after.effects@[after.effects@.len() - 2] == (Effect::ReadFile {
                root: file.root,
                path,
                source,
                request_id: file.request_id,
            })
        },
        after.session == before.session,
        after.surface == before.surface,
{
}

/// Opening instructions of a project turns to that project and leaves the page
/// that was shown; without a folder for them the user is told and stays.
pub proof fn law_instructions_opened(
    before: BlackholesApp,
    after: BlackholesApp,
    workspace_id: Id,
    path: String,
    source: FileDocumentSource,
)
    requires
        BlackholesApp::opens_instructions(before, after, workspace_id, path, source),
    ensures
        parent_of(path@) is None ==> after.session == before.session && after.surface
            == before.surface && after.active_file == before.active_file && (
        after.status matches Some(status) && status.error),
        parent_of(path@) is Some ==> {
            &&& after.session.selected_workspace_id == Some(workspace_id)
            &&& after.session.selected_task_id is None
            &&& !after.surface.show_settings
            &&& !after.surface.show_task_details
            &&& !after.surface.show_terminal
            &&& !after.file_explorer.open
        },
{
    if let Some(root) = parent_of(path@) {
        let (turned, closed, saved) = choose|
            turned: BlackholesApp,
            closed: BlackholesApp,
            saved: BlackholesApp,
        |
            {
                &&& #[trigger] BlackholesApp::turns_to_instructions(before, turned, workspace_id)
                &&& #[trigger] BlackholesApp::closes_explorer(turned, closed)
                &&& #[trigger] BlackholesApp::requests(closed, saved, seq![closed.persists()])
                &&& BlackholesApp::reads_instructions(saved, after, root, path, source)
            };
    }
}

} // verus!
