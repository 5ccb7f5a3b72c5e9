//! Notifications: what a workspace shows of them, which reach the desktop, and
//! where a click on one leads.
use std::collections::HashMap;

use vstd::prelude::*;
use vstd::std_specs::hash::*;
use vstd::string::*;

use crate::app_config::{theme_sound, NotificationConfig, NotificationSound};
use crate::text::{copy_optional, optional_text, same, trim, trimmed};
use crate::window::workspaces::{first_where, has_id, index_of_id, WorkspaceView, Workspaces};

verus! {

broadcast use group_hash_axioms;

/// Milliseconds that a notification stays.
pub const DESKTOP_NOTIFICATION_EXPIRE_TIMEOUT_MS: i32 = 10_000;

/// Whether what happened can be missed: the window, the workspace or the tab that
/// it happened in is not the one in use.
pub open spec fn can_be_missed(
    window_active: bool,
    workspace_is_active: bool,
    source_focused: bool,
) -> bool {
    !window_active || !workspace_is_active || !source_focused
}

/// Whether a notification reaches the desktop.
pub fn should_emit_desktop_notification(
    desktop_notifications_enabled: bool,
    window_active: bool,
    workspace_is_active: bool,
    source_focused: bool,
) -> (r: bool)
    ensures
        r == (desktop_notifications_enabled && can_be_missed(
            window_active,
            workspace_is_active,
            source_focused,
        )),
{
    desktop_notifications_enabled && (!window_active || !workspace_is_active || !source_focused)
}

/// What a handle of a tab means in one workspace.
#[derive(Debug, PartialEq)]
pub enum TabTargetResolution {
    /// One tab, of this pane.
    Unique(u32, String),
    /// More than one tab.
    Ambiguous,
    NotFound,
}

/// Whether a workspace other than the preferred one knows the tab.
pub open spec fn known_elsewhere(
    resolutions: Seq<TabTargetResolution>,
    preferred: int,
    i: int,
) -> bool {
    0 <= i < resolutions.len() && i != preferred && !(resolutions[i] is NotFound)
}

/// Whether `i` is the only workspace other than the preferred one that knows the
/// tab, and knows it without doubt.
pub open spec fn only_elsewhere(
    resolutions: Seq<TabTargetResolution>,
    preferred: int,
    i: int,
) -> bool {
    &&& known_elsewhere(resolutions, preferred, i)
    &&& resolutions[i] is Unique
    &&& forall|j: int| #[trigger] known_elsewhere(resolutions, preferred, j) ==> j == i
}

/// The workspace and the tab that a notification belongs to, given what each
/// workspace makes of the handle: the preferred workspace decides if it knows the
/// tab; else the only other workspace that does; else the tab stays open.
#[verifier::loop_isolation(false)]
pub fn resolve_notification_tab_target(
    preferred_index: usize,
    resolutions: &Vec<TabTargetResolution>,
) -> (r: (usize, Option<(u32, String)>))
    requires
        preferred_index < resolutions@.len(),
    ensures
        r.0 < resolutions@.len(),
        match resolutions@[preferred_index as int] {
            TabTargetResolution::Unique(pane, tab) => r.0 == preferred_index && (
            r.1 matches Some(found) && found.0 == pane && found.1@ == tab@),
            TabTargetResolution::Ambiguous => r.0 == preferred_index && r.1 is None,
            TabTargetResolution::NotFound => match r.1 {
                Some(found) => {
                    &&& only_elsewhere(resolutions@, preferred_index as int, r.0 as int)
                    &&& resolutions@[r.0 as int] matches TabTargetResolution::Unique(pane, tab)
                        && found.0 == pane && found.1@ == tab@
                },
                None => r.0 == preferred_index && forall|i: int|
                    !#[trigger] only_elsewhere(resolutions@, preferred_index as int, i),
            },
        },
{
    match &resolutions[preferred_index] {
        TabTargetResolution::Unique(pane, tab) => {
            return (preferred_index, Some((*pane, tab.clone())));
        },
        TabTargetResolution::Ambiguous => {
            return (preferred_index, None);
        },
        TabTargetResolution::NotFound => {},
    }
    let ghost all = resolutions@;
    let ghost here = preferred_index as int;
    let mut target: Option<usize> = None;
    let mut i: usize = 0;
    while i < resolutions.len()
        invariant
            i <= resolutions@.len(),
            match target {
                Some(k) => {
                    &&& k < i
                    &&& known_elsewhere(all, here, k as int)
                    &&& all[k as int] is Unique
                    &&& forall|j: int|
                        #[trigger] known_elsewhere(all, here, j) && j < i ==> j == k
                },
                None => forall|j: int| j < i ==> !#[trigger] known_elsewhere(all, here, j),
            },
        decreases resolutions@.len() - i,
    {
        if i != preferred_index {
            match &resolutions[i] {
                TabTargetResolution::Unique(_, _) => {
                    assert(known_elsewhere(all, here, i as int));
                    if target.is_some() {
                        assert forall|j: int| !#[trigger] only_elsewhere(all, here, j) by {
                            assert(known_elsewhere(all, here, target->0 as int));
                        }
                        return (preferred_index, None);
                    }
                    target = Some(i);
                },
                TabTargetResolution::Ambiguous => {
                    assert(known_elsewhere(all, here, i as int));
                    return (preferred_index, None);
                },
                TabTargetResolution::NotFound => {},
            }
        }
        i += 1;
    }
    match target {
        Some(k) => {
            assert(only_elsewhere(all, here, k as int));
            match &resolutions[k] {
                TabTargetResolution::Unique(pane, tab) => (k, Some((*pane, tab.clone()))),
                _ => (preferred_index, None),
            }
        },
        None => (preferred_index, None),
    }
}

/// Whether a workspace has anything unread, of its own or in a tab.
pub fn has_unread(workspace_unread: bool, tab_unread: bool) -> (r: bool)
    ensures
        r == (workspace_unread || tab_unread),
{
    workspace_unread || tab_unread
}

/// How the row of a workspace shows whether anything is unread.
#[derive(Clone, Copy, Debug)]
pub struct UnreadVisual {
    pub dot_class: &'static str,
    pub label_class: &'static str,
    pub label_visible: bool,
    /// The message is taken away.
    pub clear_label: bool,
    pub highlight_row: bool,
}

/// How the row of a workspace shows whether anything is unread. A message is shown
/// with it if there is one, and taken away when it has been seen.
pub fn workspace_unread_visual(unread: bool, label_is_empty: bool) -> (r: UnreadVisual)
    ensures
        r.dot_class@ == (if unread {
            "limux-notify-dot"@
        } else {
            "limux-notify-dot-hidden"@
        }),
        r.label_class@ == (if unread {
            "limux-notify-msg-unread"@
        } else {
            "limux-notify-msg"@
        }),
        r.label_visible == (unread && !label_is_empty),
        r.clear_label == !unread,
        r.highlight_row == unread,
{
    if unread {
        UnreadVisual {
            dot_class: "limux-notify-dot",
            label_class: "limux-notify-msg-unread",
            label_visible: !label_is_empty,
            clear_label: false,
            highlight_row: true,
        }
    } else {
        UnreadVisual {
            dot_class: "limux-notify-dot-hidden",
            label_class: "limux-notify-msg",
            label_visible: false,
            clear_label: true,
            highlight_row: false,
        }
    }
}

/// The message of a notification: title and body as far as there are any, without
/// white space around them.
pub open spec fn notification_message(title: Seq<char>, body: Seq<char>) -> Seq<char> {
    let title = trimmed(title);
    let body = trimmed(body);
    if title.len() > 0 && body.len() > 0 {
        title + ": "@ + body
    } else if title.len() > 0 {
        title
    } else if body.len() > 0 {
        body
    } else {
        "Process needs attention"@
    }
}

pub fn workspace_notification_message(title: &str, body: &str) -> (r: String)
    ensures
        r@ == notification_message(title@, body@),
{
    let title = trim(title);
    let body = trim(body);
    if !title.is_empty() && !body.is_empty() {
        let mut message = title.to_owned();
        message.append(": ");
        message.append(body);
        message
    } else if !title.is_empty() {
        title.to_owned()
    } else if !body.is_empty() {
        body.to_owned()
    } else {
        "Process needs attention".to_owned()
    }
}

/// Subtitle and body as one text.
pub open spec fn combined(subtitle: Seq<char>, body: Seq<char>) -> Seq<char> {
    if subtitle.len() == 0 {
        body
    } else if body.len() == 0 {
        subtitle
    } else {
        subtitle + " \u{2014} "@ + body
    }
}

/// Subtitle and body as one text, with a dash between them where there are both.
pub fn combine_body(subtitle: &str, body: &str) -> (r: String)
    ensures
        r@ == combined(subtitle@, body@),
{
    if subtitle.is_empty() {
        body.to_owned()
    } else if body.is_empty() {
        subtitle.to_owned()
    } else {
        let mut text = subtitle.to_owned();
        text.append(" \u{2014} ");
        text.append(body);
        text
    }
}

/// Where a notification leads.
#[derive(Debug, PartialEq)]
pub struct DesktopNotificationTarget {
    pub workspace_id: String,
    pub pane_id: Option<u32>,
    pub tab_id: Option<String>,
}

/// What a [`DesktopNotificationTarget`] stands for.
pub ghost struct TargetView {
    pub workspace_id: Seq<char>,
    pub pane_id: Option<u32>,
    pub tab_id: Option<Seq<char>>,
}

impl View for DesktopNotificationTarget {
    type V = TargetView;

    open spec fn view(&self) -> TargetView {
        TargetView {
            workspace_id: self.workspace_id@,
            pane_id: self.pane_id,
            tab_id: optional_text(self.tab_id),
        }
    }
}

impl DesktopNotificationTarget {
    pub fn copy(&self) -> (r: Self)
        ensures
            r@ == self@,
    {
        DesktopNotificationTarget {
            workspace_id: self.workspace_id.clone(),
            pane_id: self.pane_id,
            tab_id: copy_optional(&self.tab_id),
        }
    }
}

/// A notification for the desktop.
#[derive(Debug, PartialEq)]
pub struct DesktopNotificationRequest {
    pub summary: String,
    pub body: String,
    pub sound: NotificationSound,
    pub target: DesktopNotificationTarget,
}

/// What something that happened in a workspace leads to.
#[derive(Debug, PartialEq)]
pub struct UnreadPlan {
    /// The notification for the desktop.
    pub request: Option<DesktopNotificationRequest>,
    /// It counts as unread.
    pub unread: bool,
    /// The tab to mark, if there is one.
    pub tab: Option<(u32, String)>,
}

/// What a [`DesktopNotificationRequest`] stands for.
pub ghost struct RequestView {
    pub summary: Seq<char>,
    pub body: Seq<char>,
    pub sound: NotificationSound,
    pub target: TargetView,
}

impl View for DesktopNotificationRequest {
    type V = RequestView;

    open spec fn view(&self) -> RequestView {
        RequestView {
            summary: self.summary@,
            body: self.body@,
            sound: self.sound,
            target: self.target@,
        }
    }
}

/// What an [`UnreadPlan`] stands for.
pub ghost struct PlanView {
    pub request: Option<RequestView>,
    pub unread: bool,
    pub tab: Option<(u32, Seq<char>)>,
}

impl View for UnreadPlan {
    type V = PlanView;

    open spec fn view(&self) -> PlanView {
        PlanView {
            request: match self.request {
                Some(request) => Some(request@),
                None => None,
            },
            unread: self.unread,
            tab: match self.tab {
                Some(tab) => Some((tab.0, tab.1@)),
                None => None,
            },
        }
    }
}

/// What something that happened in a workspace leads to: a notification for the
/// desktop if those are on, and an unread mark, both only if it can be missed.
pub open spec fn unread_plan(
    workspace: WorkspaceView,
    workspace_is_active: bool,
    message: Seq<char>,
    source_focused: bool,
    target: TargetView,
    window_active: bool,
    notifications: NotificationConfig,
) -> PlanView {
    let missed = can_be_missed(window_active, workspace_is_active, source_focused);
    PlanView {
        request: if notifications.enabled && missed {
            Some(
                RequestView {
                    summary: workspace.name,
                    body: message,
                    sound: notifications.sound,
                    target,
                },
            )
        } else {
            None
        },
        unread: missed,
        tab: match (target.pane_id, target.tab_id) {
            (Some(pane), Some(tab)) => if missed {
                Some((pane, tab))
            } else {
                None
            },
            _ => None,
        },
    }
}

/// What something that happened in a workspace leads to. Nothing for a workspace
/// that does not exist.
pub fn mark_workspace_unread_with_message(
    workspaces: &Workspaces,
    ws_id: &str,
    message: &str,
    source_focused: bool,
    target: &DesktopNotificationTarget,
    window_active: bool,
    notifications: NotificationConfig,
) -> (r: Option<UnreadPlan>)
    ensures
        match first_where(workspaces.views(), has_id(ws_id@)) {
            None => r is None,
            Some(i) => r matches Some(plan) && plan@ == unread_plan(
                workspaces.views()[i],
                i == workspaces.active_idx,
                message@,
                source_focused,
                target@,
                window_active,
                notifications,
            ),
        },
{
    let index = match index_of_id(&workspaces.list, ws_id) {
        Some(i) => i,
        None => {
            return None;
        },
    };
    let workspace = &workspaces.list[index];
    assert(workspaces.views()[index as int] == workspace@);
    let workspace_is_active = index == workspaces.active_idx;
    let request = if should_emit_desktop_notification(
        notifications.enabled,
        window_active,
        workspace_is_active,
        source_focused,
    ) {
        Some(
            DesktopNotificationRequest {
                summary: workspace.name.clone(),
                body: message.to_owned(),
                sound: notifications.sound,
                target: target.copy(),
            },
        )
    } else {
        None
    };
    let unread = !window_active || !workspace_is_active || !source_focused;
    let tab = match (target.pane_id, &target.tab_id) {
        (Some(pane), Some(tab)) => if unread {
            Some((pane, tab.clone()))
        } else {
            None
        },
        _ => None,
    };
    Some(UnreadPlan { request, unread, tab })
}

/// The message where a program only asks for attention.
pub fn attention_message() -> (r: &'static str)
    ensures
        r@ == "Process needs attention"@,
{
    "Process needs attention"
}

/// Marks a workspace where no tab could be marked. Says whether there is such a
/// workspace, whose message is then to be set.
pub fn mark_workspace(workspaces: &mut Workspaces, ws_id: &str, tab_was_targeted: bool) -> (r: bool)
    ensures
        final(workspaces).active_idx == old(workspaces).active_idx,
        match first_where(old(workspaces).views(), has_id(ws_id@)) {
            Some(i) => r && final(workspaces).views() == old(workspaces).views().update(
                i,
                WorkspaceView {
                    unread: old(workspaces).views()[i].unread || !tab_was_targeted,
                    ..old(workspaces).views()[i]
                },
            ),
            None => !r && *final(workspaces) == *old(workspaces),
        },
{
    match index_of_id(&workspaces.list, ws_id) {
        Some(i) => {
            let unread = workspaces.list[i].unread || !tab_was_targeted;
            workspaces.list[i].unread = unread;
            proof {
                assert(workspaces.views() =~= old(workspaces).views().update(
                    i as int,
                    WorkspaceView { unread, ..old(workspaces).views()[i as int] },
                ));
            }
            true
        },
        None => false,
    }
}

/// Takes the mark of a workspace away that is looked at. Says whether that was
/// done: the window is in use and there is such a workspace.
pub fn clear_visible_tab_unread(
    workspaces: &mut Workspaces,
    ws_id: &str,
    window_active: bool,
) -> (r: bool)
    ensures
        final(workspaces).active_idx == old(workspaces).active_idx,
        match first_where(old(workspaces).views(), has_id(ws_id@)) {
            Some(i) if window_active => r && final(workspaces).views()
                == old(workspaces).views().update(
                i,
                WorkspaceView { unread: false, ..old(workspaces).views()[i] },
            ),
            _ => !r && *final(workspaces) == *old(workspaces),
        },
{
    if !window_active {
        return false;
    }
    match index_of_id(&workspaces.list, ws_id) {
        Some(i) => {
            workspaces.list[i].unread = false;
            proof {
                assert(workspaces.views() =~= old(workspaces).views().update(
                    i as int,
                    WorkspaceView { unread: false, ..old(workspaces).views()[i as int] },
                ));
            }
            true
        },
        None => false,
    }
}

/// What reaches the desktop is unread too, so that it is found again when the
/// notification is gone; what happens in the tab in use, of the workspace that is
/// shown, in the window in use, is neither marked nor notified; and with
/// notifications off the marks stay the same.
pub proof fn lemma_notified_is_unread(
    workspace: WorkspaceView,
    workspace_is_active: bool,
    message: Seq<char>,
    source_focused: bool,
    target: TargetView,
    window_active: bool,
    notifications: NotificationConfig,
)
    ensures
        ({
            let plan = unread_plan(
                workspace,
                workspace_is_active,
                message,
                source_focused,
                target,
                window_active,
                notifications,
            );
            let quiet = unread_plan(
                workspace,
                workspace_is_active,
                message,
                source_focused,
                target,
                window_active,
                NotificationConfig { enabled: false, ..notifications },
            );
            &&& plan.request is Some ==> plan.unread
            &&& plan.tab is Some ==> plan.unread
            &&& window_active && workspace_is_active && source_focused ==> !plan.unread
            &&& quiet == PlanView { request: None, ..plan }
        }),
{
}

/// The value of a hint.
#[derive(Debug, PartialEq)]
pub enum HintValue {
    Text(String),
    Flag(bool),
}

/// What a [`HintValue`] stands for.
pub ghost enum HintView {
    Text(Seq<char>),
    Flag(bool),
}

impl View for HintValue {
    type V = HintView;

    open spec fn view(&self) -> HintView {
        match self {
            HintValue::Text(text) => HintView::Text(text@),
            HintValue::Flag(on) => HintView::Flag(*on),
        }
    }
}

/// The contents of a list of hints.
pub open spec fn hint_views(hints: Seq<(&'static str, HintValue)>) -> Seq<(Seq<char>, HintView)> {
    Seq::new(hints.len(), |i: int| (hints[i].0@, hints[i].1@))
}

/// The hints of a notification: the application that it comes from, and on its
/// sound none for the default one, silence where that is wanted, else the name of
/// the sound, under both of its keys.
pub open spec fn hints_of(app_id: Seq<char>, sound: NotificationSound) -> Seq<(Seq<char>, HintView)> {
    let entry = ("desktop-entry"@, HintView::Text(app_id));
    match (sound, theme_sound(sound)) {
        (NotificationSound::Silent, _) => seq![entry, ("suppress-sound"@, HintView::Flag(true))],
        (_, Some(name)) => seq![
            entry,
            ("sound-name"@, HintView::Text(name)),
            ("x-canonical-sound-name"@, HintView::Text(name)),
        ],
        (_, None) => seq![entry],
    }
}

/// The hints of a notification.
pub fn desktop_notification_hints(app_id: &str, sound: NotificationSound) -> (r: Vec<
    (&'static str, HintValue),
>)
    ensures
        hint_views(r@) == hints_of(app_id@, sound),
        r@[0].0@ == "desktop-entry"@,
        r@[0].1@ == HintView::Text(app_id@),
        match sound {
            NotificationSound::Default => r@.len() == 1,
            NotificationSound::Silent => r@.len() == 2,
            _ => r@.len() == 3,
        },
{
    let mut hints: Vec<(&'static str, HintValue)> = Vec::new();
    hints.push(("desktop-entry", HintValue::Text(app_id.to_owned())));
    match sound {
        NotificationSound::Default => {},
        NotificationSound::Silent => {
            hints.push(("suppress-sound", HintValue::Flag(true)));
        },
        _ => {
            if let Some(name) = sound.freedesktop_sound_name() {
                hints.push(("sound-name", HintValue::Text(name.to_owned())));
                hints.push(("x-canonical-sound-name", HintValue::Text(name.to_owned())));
            }
        },
    }
    proof {
        assert(hint_views(hints@) =~= hints_of(app_id@, sound));
        assert(hint_views(hints@)[0] == (hints@[0].0@, hints@[0].1@));
    }
    hints
}

/// The actions of a notification: a click on it opens what it is about.
pub fn desktop_notification_actions() -> (r: Vec<String>)
    ensures
        r@.len() == 2,
        r@[0]@ == "default"@,
        r@[1]@ == "Open"@,
{
    let mut actions: Vec<String> = Vec::new();
    actions.push("default".to_owned());
    actions.push("Open".to_owned());
    actions
}

/// Where a notification that is shown leads, and the token with which the desktop
/// lets the window come to the front.
#[derive(Debug, PartialEq)]
pub struct DesktopNotificationRoute {
    pub target: DesktopNotificationTarget,
    pub activation_token: Option<String>,
}

/// The notifications that are shown, by the number that the desktop gave them.
#[derive(Debug)]
pub struct NotificationRoutes {
    pub routes: HashMap<u32, DesktopNotificationRoute>,
}

impl NotificationRoutes {
    pub open spec fn shown(self) -> Map<u32, DesktopNotificationRoute> {
        self.routes@
    }

    pub fn new() -> (r: Self)
        ensures
            r.shown() == Map::<u32, DesktopNotificationRoute>::empty(),
    {
        NotificationRoutes { routes: HashMap::new() }
    }

    /// Enters a notification that the desktop shows.
    pub fn notified(&mut self, id: u32, target: DesktopNotificationTarget)
        ensures
            final(self).shown() == old(self).shown().insert(
                id,
                DesktopNotificationRoute { target, activation_token: None },
            ),
    {
        self.routes.insert(id, DesktopNotificationRoute { target, activation_token: None });
    }

    /// Keeps the token that the desktop hands out for a notification.
    pub fn token_received(&mut self, id: u32, token: String)
        ensures
            final(self).shown() == (if old(self).shown().contains_key(id) {
                old(self).shown().insert(
                    id,
                    DesktopNotificationRoute {
                        target: old(self).shown()[id].target,
                        activation_token: Some(token),
                    },
                )
            } else {
                old(self).shown()
            }),
    {
        if let Some(route) = self.routes.remove(&id) {
            self.routes.insert(
                id,
                DesktopNotificationRoute { target: route.target, activation_token: Some(token) },
            );
            assert(self.shown() =~= old(self).shown().insert(
                id,
                DesktopNotificationRoute {
                    target: old(self).shown()[id].target,
                    activation_token: Some(token),
                },
            ));
        } else {
            assert(self.shown() =~= old(self).shown());
        }
    }

    /// A notification was acted on. A click on it takes it out and leads to its
    /// target; any other action does nothing.
    pub fn action_invoked(&mut self, id: u32, action: &str) -> (r: Option<DesktopNotificationRoute>)
        ensures
            if action@ == "default"@ {
                &&& r == (if old(self).shown().contains_key(id) {
                    Some(old(self).shown()[id])
                } else {
                    None
                })
                &&& final(self).shown() == old(self).shown().remove(id)
            } else {
                r is None && final(self).shown() == old(self).shown()
            },
    {
        if !same(action, "default") {
            return None;
        }
        let route = self.routes.remove(&id);
        assert(self.shown() =~= old(self).shown().remove(id));
        route
    }

    /// A notification was closed.
    pub fn closed(&mut self, id: u32)
        ensures
            final(self).shown() == old(self).shown().remove(id),
    {
        self.routes.remove(&id);
        assert(self.shown() =~= old(self).shown().remove(id));
    }
}

/// How the window comes to the target of a notification.
#[derive(Debug, PartialEq)]
pub struct Activation {
    /// The workspace to show.
    pub workspace: usize,
    /// The token to come to the front with, if there is one.
    pub token: Option<String>,
    /// The workspace was not the one that was shown, so that its widgets need a
    /// moment longer before one can get the focus.
    pub workspace_changed: bool,
}

/// How the window comes to the target of a notification; it does not where the
/// workspace is gone.
pub fn activate_desktop_notification_target(
    workspaces: &Workspaces,
    target: &DesktopNotificationTarget,
    activation_token: &Option<String>,
) -> (r: Option<Activation>)
    ensures
        match first_where(workspaces.views(), has_id(target.workspace_id@)) {
            None => r is None,
            Some(i) => {
                &&& r matches Some(activation)
                &&& activation.workspace == i
                &&& activation.workspace_changed == (i != workspaces.active_idx)
                &&& optional_text(activation.token) == (match optional_text(*activation_token) {
                    Some(token) => if token.len() > 0 {
                        Some(token)
                    } else {
                        None
                    },
                    None => None,
                })
            },
        },
{
    match index_of_id(&workspaces.list, target.workspace_id.as_str()) {
        None => None,
        Some(workspace) => {
            let token = match activation_token {
                Some(token) => if token.as_str().is_empty() {
                    None
                } else {
                    Some(token.clone())
                },
                None => None,
            };
            Some(
                Activation {
                    workspace,
                    token,
                    workspace_changed: workspace != workspaces.active_idx,
                },
            )
        },
    }
}

/// A step on the way to the target of a notification.
#[derive(Clone, Copy, Debug, PartialEq, Eq, Structural)]
pub enum FocusStep {
    /// Show the tab, whatever comes of it.
    ShowTab,
    /// End the zoom that hides the pane; done if there was one.
    RevealPane,
    /// Show the tab; done if it is there.
    ActivateTab,
    /// Focus the tab that the pane shows; done if there is one.
    FocusPane,
    /// Focus the workspace; done.
    FocusWorkspace,
}

/// The steps to the target of a notification, to be taken until one is done.
pub open spec fn focus_steps(
    workspace_found: bool,
    pane_found: bool,
    pane_in_workspace: bool,
    has_tab: bool,
) -> Seq<FocusStep> {
    let unhide = if pane_found && workspace_found && !pane_in_workspace {
        if has_tab {
            seq![FocusStep::ShowTab, FocusStep::RevealPane]
        } else {
            seq![FocusStep::RevealPane]
        }
    } else {
        Seq::empty()
    };
    let pane = if pane_found {
        if has_tab {
            seq![FocusStep::ActivateTab, FocusStep::FocusPane]
        } else {
            seq![FocusStep::FocusPane]
        }
    } else {
        Seq::empty()
    };
    let workspace = if workspace_found {
        seq![FocusStep::FocusWorkspace]
    } else {
        Seq::empty()
    };
    unhide + pane + workspace
}

/// The steps to the target of a notification, to be taken until one is done. A
/// pane that is not among the widgets of its workspace is hidden by a zoom.
pub fn focus_desktop_notification_target(
    workspace_found: bool,
    pane_found: bool,
    pane_in_workspace: bool,
    has_tab: bool,
) -> (r: Vec<FocusStep>)
    ensures
        r@ == focus_steps(workspace_found, pane_found, pane_in_workspace, has_tab),
{
    let mut steps: Vec<FocusStep> = Vec::new();
    if pane_found {
        if workspace_found && !pane_in_workspace {
            if has_tab {
                steps.push(FocusStep::ShowTab);
            }
            steps.push(FocusStep::RevealPane);
        }
        if has_tab {
            steps.push(FocusStep::ActivateTab);
        }
        steps.push(FocusStep::FocusPane);
    }
    if workspace_found {
        steps.push(FocusStep::FocusWorkspace);
    }
    assert(steps@ =~= focus_steps(workspace_found, pane_found, pane_in_workspace, has_tab));
    steps
}

/// Nothing is missed exactly where the window, the workspace and the tab are all in
/// use.
pub proof fn lemma_seen_only_in_use(window: bool, workspace: bool, source: bool)
    ensures
        !can_be_missed(window, workspace, source) <==> window && workspace && source,
{
}

/// A notification bears the name of its workspace, says what happened, sounds as the
/// settings say and leads back to where it happened; and it is sent exactly where it
/// is wanted and the event can be missed. The tab that is marked is the one where it
/// happened.
pub proof fn lemma_notification_is_about_its_source(
    workspace: WorkspaceView,
    workspace_is_active: bool,
    message: Seq<char>,
    source_focused: bool,
    target: TargetView,
    window_active: bool,
    notifications: NotificationConfig,
)
    ensures
        ({
            let seen = window_active && workspace_is_active && source_focused;
            let plan = unread_plan(
                workspace,
                workspace_is_active,
                message,
                source_focused,
                target,
                window_active,
                notifications,
            );
            &&& plan.unread == !seen
            &&& plan.request is Some <==> notifications.enabled && !seen
            &&& plan.request matches Some(request) ==> {
                &&& request.summary == workspace.name
                &&& request.body == message
                &&& request.sound == notifications.sound
                &&& request.target == target
            }
            &&& plan.tab is Some <==> target.pane_id is Some && target.tab_id is Some && !seen
            &&& plan.tab matches Some(tab) ==> target.pane_id == Some(tab.0) && target.tab_id
                == Some(tab.1)
        }),
{
}

/// The text of a notification is never empty. It begins with the title and ends with
/// the body, without the blanks around them; where both are there, something stands
/// between them, and where one is missing, the other is all there is.
pub proof fn lemma_message_holds_title_and_body(title: Seq<char>, body: Seq<char>)
    ensures
        ({
            let message = notification_message(title, body);
            let t = trimmed(title);
            let b = trimmed(body);
            &&& message.len() > 0
            &&& t.len() > 0 ==> t.is_prefix_of(message)
            &&& b.len() > 0 ==> b.is_suffix_of(message)
            &&& t.len() > 0 && b.len() > 0 ==> message.len() == t.len() + 2 + b.len()
            &&& t.len() > 0 && b.len() == 0 ==> message == t
            &&& b.len() > 0 && t.len() == 0 ==> message == b
        }),
{
    reveal_strlit("Process needs attention");
    reveal_strlit(": ");
    let message = notification_message(title, body);
    let t = trimmed(title);
    let b = trimmed(body);
    assert(t.len() > 0 ==> t =~= message.subrange(0, t.len() as int));
    assert(b.len() > 0 ==> b =~= message.subrange(message.len() - b.len(), message.len() as int));
}

/// A subtitle comes before the body, apart from it; where one is missing, the other
/// is all there is.
pub proof fn lemma_subtitle_comes_first(subtitle: Seq<char>, body: Seq<char>)
    ensures
        ({
            let text = combined(subtitle, body);
            &&& subtitle.is_prefix_of(text)
            &&& body.is_suffix_of(text)
            &&& subtitle.len() > 0 && body.len() > 0 ==> text.len() == subtitle.len() + 3
                + body.len()
            &&& subtitle.len() == 0 || body.len() == 0 ==> text.len() == subtitle.len()
                + body.len()
        }),
{
    reveal_strlit(" \u{2014} ");
    let text = combined(subtitle, body);
    assert(subtitle =~= text.subrange(0, subtitle.len() as int));
    assert(body =~= text.subrange(text.len() - body.len(), text.len() as int));
}

/// Every notification names the application. It is silenced exactly where silence is
/// asked for; a sound of the theme is named under both names that desktops look at,
/// and the desktop's own sound is left to it.
pub proof fn lemma_hints_ask_for_the_sound(app_id: Seq<char>, sound: NotificationSound)
    ensures
        ({
            let hints = hints_of(app_id, sound);
            let silent = ("suppress-sound"@, HintView::Flag(true));
            &&& hints[0] == ("desktop-entry"@, HintView::Text(app_id))
            &&& hints.contains(silent) <==> sound == NotificationSound::Silent
            &&& theme_sound(sound) matches Some(name) ==> hints.len() == 3 && hints[1] == (
                "sound-name"@,
                HintView::Text(name),
            ) && hints[2] == ("x-canonical-sound-name"@, HintView::Text(name))
            &&& hints.len() == 3 <==> theme_sound(sound) is Some
            &&& sound == NotificationSound::Default ==> hints.len() == 1
        }),
{
    let hints = hints_of(app_id, sound);
    if sound == NotificationSound::Silent {
        assert(hints[1] == ("suppress-sound"@, HintView::Flag(true)));
    }
}

/// Whether one step comes before another.
pub open spec fn comes_before(steps: Seq<FocusStep>, a: FocusStep, b: FocusStep) -> bool {
    forall|i: int, j: int|
        0 <= i < steps.len() && 0 <= j < steps.len() && #[trigger] steps[i] == a
            && #[trigger] steps[j] == b ==> i < j
}

/// A notification that is chosen leads to its pane and then to its workspace, as far
/// as they are still there. A tab is brought up before its pane gets the focus, and
/// a pane is uncovered, by its tab first, exactly where it is not among those that
/// the workspace shows.
pub proof fn lemma_focus_follows_notification(
    workspace_found: bool,
    pane_found: bool,
    pane_in_workspace: bool,
    has_tab: bool,
)
    ensures
        ({
            let steps = focus_steps(workspace_found, pane_found, pane_in_workspace, has_tab);
            let hidden = pane_found && workspace_found && !pane_in_workspace;
            &&& steps.contains(FocusStep::FocusWorkspace) <==> workspace_found
            &&& steps.contains(FocusStep::FocusPane) <==> pane_found
            &&& steps.contains(FocusStep::ActivateTab) <==> pane_found && has_tab
            &&& steps.contains(FocusStep::RevealPane) <==> hidden
            &&& steps.contains(FocusStep::ShowTab) <==> hidden && has_tab
            &&& comes_before(steps, FocusStep::ShowTab, FocusStep::RevealPane)
            &&& comes_before(steps, FocusStep::RevealPane, FocusStep::FocusPane)
            &&& comes_before(steps, FocusStep::RevealPane, FocusStep::ActivateTab)
            &&& comes_before(steps, FocusStep::ActivateTab, FocusStep::FocusPane)
            &&& comes_before(steps, FocusStep::FocusPane, FocusStep::FocusWorkspace)
            &&& steps.no_duplicates()
        }),
{
    let steps = focus_steps(workspace_found, pane_found, pane_in_workspace, has_tab);
    let hidden = pane_found && workspace_found && !pane_in_workspace;
    let n = steps.len() as int;
    if workspace_found {
        assert(steps[n - 1] == FocusStep::FocusWorkspace);
        if pane_found {
            assert(steps[n - 2] == FocusStep::FocusPane);
            if has_tab {
                assert(steps[n - 3] == FocusStep::ActivateTab);
            }
        }
    } else if pane_found {
        assert(steps[n - 1] == FocusStep::FocusPane);
        if has_tab {
            assert(steps[n - 2] == FocusStep::ActivateTab);
        }
    }
    if hidden {
        if has_tab {
            assert(steps[0] == FocusStep::ShowTab);
            assert(steps[1] == FocusStep::RevealPane);
        } else {
            assert(steps[0] == FocusStep::RevealPane);
        }
    }
}

/// A tab counts as found elsewhere exactly where one other workspace has it, once,
/// and no further one knows it.
pub proof fn lemma_found_in_one_other_place(
    resolutions: Seq<TabTargetResolution>,
    preferred: int,
    i: int,
    j: int,
)
    requires
        0 <= i < resolutions.len(),
        0 <= j < resolutions.len(),
        i != preferred,
        j != preferred,
    ensures
        only_elsewhere(resolutions, preferred, i) ==> resolutions[i] is Unique,
        only_elsewhere(resolutions, preferred, i) && i != j ==> resolutions[j] is NotFound,
        only_elsewhere(resolutions, preferred, i) && only_elsewhere(resolutions, preferred, j)
            ==> i == j,
        !only_elsewhere(resolutions, preferred, preferred),
        resolutions[i] is Unique && (forall|k: int|
            0 <= k < resolutions.len() && k != i && k != preferred ==> (#[trigger] resolutions[k])
                is NotFound) ==> only_elsewhere(resolutions, preferred, i),
{
    if only_elsewhere(resolutions, preferred, i) && i != j && !(resolutions[j] is NotFound) {
        assert(known_elsewhere(resolutions, preferred, j));
    }
}

} // verus!
