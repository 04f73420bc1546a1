//! Windows, their tabs, and the tray.

use vstd::prelude::*;

use crate::config::{CloseBehavior, LauncherConfig};
use crate::json;
use crate::state::{Phase, RuntimeState};
use crate::text;

verus! {

/// Milliseconds between the last window's end and the launcher's.
pub const EXIT_DELAY_MILLIS: u64 = 120;

/// Milliseconds after which a window that gave its last tab away is closed.
pub const CLOSE_DELAY_MILLIS: u64 = 80;

/// Counts the windows that were opened besides the main one.
pub struct WindowCounter {
    pub opened: u64,
}

/// The label of a window.
pub open spec fn window_label(number: nat) -> Seq<char> {
    "control-"@ + text::decimal(number)
}

impl WindowCounter {
    /// None was opened yet.
    pub fn new() -> (r: Self)
        ensures
            r.opened == 0,
    {
        WindowCounter { opened: 0 }
    }
}

/// Makes the label of the next window.
pub fn next_window_label(counter: &mut WindowCounter) -> (r: String)
    requires
        old(counter).opened < u64::MAX,
    ensures
        final(counter).opened == old(counter).opened + 1,
        r@ == window_label(final(counter).opened as nat),
{
    counter.opened += 1;
    let mut label: String = "control-".to_string();
    let digits: String = text::decimal_text(counter.opened);
    label.append(digits.as_str());
    label
}

/// A label is that of a launcher window: the main window's, or one that was made for a
/// further window.
pub open spec fn launcher_label(label: Seq<char>) -> bool {
    "control"@.is_prefix_of(label)
}

/// No two windows have the same label, none has the main window's, and all labels tell that
/// the window is the launcher's.
pub proof fn law_labels_differ(first: nat, second: nat)
    ensures
        first != second ==> window_label(first) != window_label(second),
        window_label(first) != "control"@,
        launcher_label(window_label(first)),
{
    reveal_strlit("control-");
    reveal_strlit("control");
    text::lemma_decimal(first);
    text::lemma_decimal(second);
    let prefix = "control-"@;
    let one = window_label(first);
    let other = window_label(second);
    assert(one.skip(prefix.len() as int) =~= text::decimal(first));
    assert(other.skip(prefix.len() as int) =~= text::decimal(second));
    assert(one.len() > prefix.len());
    assert("control"@ =~= one.subrange(0, 7));
}

/// The tabs that new windows are to open with, by the windows' labels.
pub struct PendingTabs {
    entries: Vec<(String, String)>,
}

impl View for PendingTabs {
    type V = Map<Seq<char>, Seq<char>>;

    closed spec fn view(&self) -> Map<Seq<char>, Seq<char>> {
        Map::new(
            |label: Seq<char>| exists|i: int| #[trigger] self.holds_at(label, i),
            |label: Seq<char>| self.entries@[choose|i: int| #[trigger] self.holds_at(label, i)].1@,
        )
    }
}

impl PendingTabs {
    /// The entry at `i` is for the label.
    spec fn holds_at(&self, label: Seq<char>, i: int) -> bool {
        0 <= i < self.entries@.len() && self.entries@[i].0@ == label
    }

    /// No label occurs twice.
    #[verifier::type_invariant]
    spec fn well_formed(&self) -> bool {
        forall|label: Seq<char>, i: int, j: int|
            #[trigger] self.holds_at(label, i) && #[trigger] self.holds_at(label, j) ==> i == j
    }

    /// There are no tabs.
    pub fn new() -> (r: Self)
        ensures
            r@ == Map::<Seq<char>, Seq<char>>::empty(),
    {
        let r = PendingTabs { entries: Vec::new() };
        assert(r@ =~= Map::<Seq<char>, Seq<char>>::empty());
        r
    }

    /// Where the entry for a label stands.
    fn position(&self, label: &str) -> (r: Option<usize>)
        ensures
            match r {
                Some(at) => self.holds_at(label@, at as int),
                None => forall|i: int| !#[trigger] self.holds_at(label@, i),
            },
    {
        let mut at: usize = 0;
        while at < self.entries.len()
            invariant
                at <= self.entries.len(),
                forall|i: int| 0 <= i < at ==> !#[trigger] self.holds_at(label@, i),
            decreases self.entries.len() - at,
        {
            if text::same_text(self.entries[at].0.as_str(), label) {
                return Some(at);
            }
            assert(!self.holds_at(label@, at as int));
            at += 1;
        }
        None
    }

    /// Takes the tab of a window out, if there is one.
    pub fn take(&mut self, label: &str) -> (r: Option<String>)
        ensures
            text::optional(r) == (if old(self)@.dom().contains(label@) {
                Some(old(self)@[label@])
            } else {
                None
            }),
            final(self)@ == old(self)@.remove(label@),
    {
        proof {
            use_type_invariant(&*self);
        }
        match self.position(label) {
            None => {
                assert(self@ =~= old(self)@.remove(label@));
                None
            },
            Some(at) => {
                let ghost before = *self;
                let mut entries: Vec<(String, String)> = Vec::new();
                std::mem::swap(&mut entries, &mut self.entries);
                let entry: (String, String) = entries.remove(at);
                proof {
                    PendingTabs { entries }.lemma_removed(before, label@, at as int);
                }
                self.entries = entries;
                Some(entry.1)
            },
        }
    }

    /// An entry was taken out.
    proof fn lemma_removed(self, before: Self, label: Seq<char>, at: int)
        requires
            before.well_formed(),
            before.holds_at(label, at),
            self.entries@ == before.entries@.remove(at),
        ensures
            self.well_formed(),
            self@ == before@.remove(label),
            before@.dom().contains(label),
            before@[label] == before.entries@[at].1@,
    {
        let shift = |i: int| if i < at { i } else { i + 1 };
        assert forall|key: Seq<char>, i: int| #[trigger] self.holds_at(key, i) implies before.holds_at(
            key,
            shift(i),
        ) by {
            assert(self.entries@[i] == before.entries@[shift(i)]);
        }
        assert forall|key: Seq<char>, i: int, j: int|
            #[trigger] self.holds_at(key, i) && #[trigger] self.holds_at(key, j) implies i == j by {
            assert(before.holds_at(key, shift(i)) && before.holds_at(key, shift(j)));
        }
        assert forall|key: Seq<char>| #[trigger] self@.dom().contains(key) <==> before@.remove(
            label,
        ).dom().contains(key) by {
            if self@.dom().contains(key) {
                let i = choose|i: int| #[trigger] self.holds_at(key, i);
                assert(before.holds_at(key, shift(i)));
                if key == label {
                    assert(shift(i) == at);
                }
            }
            if before@.dom().contains(key) && key != label {
                let k = choose|k: int| #[trigger] before.holds_at(key, k);
                let i = if k < at { k } else { k - 1 };
                assert(self.entries@[i] == before.entries@[k]);
                assert(self.holds_at(key, i));
            }
        }
        assert forall|key: Seq<char>| #[trigger] self@.dom().contains(key) implies self@[key]
            == before@.remove(label)[key] by {
            let i = choose|i: int| #[trigger] self.holds_at(key, i);
            let k = choose|k: int| #[trigger] before.holds_at(key, k);
            assert(before.holds_at(key, shift(i)));
            assert(shift(i) == k);
            assert(self.entries@[i] == before.entries@[k]);
        }
        assert(self@ =~= before@.remove(label));
    }

    /// Keeps a tab for a window, in place of one that was kept before.
    pub fn insert(&mut self, label: &str, title: &str)
        ensures
            final(self)@ == old(self)@.insert(label@, title@),
    {
        let _ = self.take(label);
        proof {
            use_type_invariant(&*self);
        }
        let ghost before = *self;
        let mut entries: Vec<(String, String)> = Vec::new();
        std::mem::swap(&mut entries, &mut self.entries);
        entries.push((label.to_owned(), title.to_owned()));
        proof {
            assert(entries@.drop_last() =~= before.entries@);
            PendingTabs { entries }.lemma_added(before, label@, title@);
        }
        self.entries = entries;
        assert(self@ =~= old(self)@.insert(label@, title@));
    }

    /// An entry was added for a new label.
    proof fn lemma_added(self, before: Self, label: Seq<char>, title: Seq<char>)
        requires
            before.well_formed(),
            !before@.dom().contains(label),
            self.entries@.len() == before.entries@.len() + 1,
            self.entries@.drop_last() == before.entries@,
            self.entries@.last().0@ == label,
            self.entries@.last().1@ == title,
        ensures
            self.well_formed(),
            self@ == before@.insert(label, title),
    {
        let last = before.entries@.len() as int;
        assert(forall|i: int| !#[trigger] before.holds_at(label, i));
        assert forall|key: Seq<char>, i: int| #[trigger] self.holds_at(key, i) implies (i == last && key
            == label) || before.holds_at(key, i) by {
            if i < last {
                assert(self.entries@.drop_last()[i] == before.entries@[i]);
            }
        }
        assert forall|key: Seq<char>, i: int| #[trigger] before.holds_at(key, i) implies self.holds_at(
            key,
            i,
        ) by {
            assert(self.entries@.drop_last()[i] == before.entries@[i]);
        }
        assert(self.holds_at(label, last));
        assert forall|key: Seq<char>, i: int, j: int|
            #[trigger] self.holds_at(key, i) && #[trigger] self.holds_at(key, j) implies i == j by {
            if key != label {
                assert(before.holds_at(key, i) && before.holds_at(key, j));
            }
        }
        assert forall|key: Seq<char>| #[trigger] self@.dom().contains(key) <==> before@.insert(
            label,
            title,
        ).dom().contains(key) by {
            if self@.dom().contains(key) && key != label {
                let i = choose|i: int| #[trigger] self.holds_at(key, i);
                assert(before.holds_at(key, i));
            }
            if before@.dom().contains(key) {
                let i = choose|i: int| #[trigger] before.holds_at(key, i);
                assert(self.holds_at(key, i));
            }
        }
        assert forall|key: Seq<char>| #[trigger] self@.dom().contains(key) implies self@[key]
            == before@.insert(label, title)[key] by {
            let i = choose|i: int| #[trigger] self.holds_at(key, i);
            if key == label {
                assert(i == last);
            } else {
                assert(before.holds_at(key, i));
                let k = choose|k: int| #[trigger] before.holds_at(key, k);
                assert(k == i);
                assert(self.entries@.drop_last()[i] == before.entries@[i]);
            }
        }
        assert(self@ =~= before@.insert(label, title));
    }
}

/// What a window opens with is what was kept for it, and it is handed out once; the other
/// windows' tabs stay.
pub proof fn law_a_tab_is_handed_out_once(
    tabs: Map<Seq<char>, Seq<char>>,
    label: Seq<char>,
    title: Seq<char>,
    other: Seq<char>,
)
    ensures
        tabs.insert(label, title)[label] == title,
        !tabs.insert(label, title).remove(label).dom().contains(label),
        other != label ==> tabs.insert(label, title).remove(label).dom().contains(other)
            == tabs.dom().contains(other),
        other != label && tabs.dom().contains(other) ==> tabs.insert(label, title).remove(label)[other]
            == tabs[other],
{
}

/// Where a tab went that was dragged out of its window.
#[derive(Clone, Copy, Debug, PartialEq, Eq, Structural)]
pub enum TabDropOutcome {
    Adopted,
    Detached,
    Kept,
}

/// A window that a tab might be dropped on.
pub struct DropTarget {
    pub label: String,
    pub minimized: bool,
    pub visible: bool,
    /// The window's place and size are known, and the cursor is over its tab strip.
    pub hit: bool,
}

/// The window takes a tab of the window `source`.
pub open spec fn takes_tab(target: DropTarget, source: Seq<char>) -> bool {
    &&& target.label@ != source
    &&& launcher_label(target.label@)
    &&& !target.minimized
    &&& target.visible
    &&& target.hit
}

/// The first window that takes the tab.
pub open spec fn first_taker(targets: Seq<DropTarget>, source: Seq<char>, at: int) -> bool {
    &&& 0 <= at < targets.len()
    &&& takes_tab(targets[at], source)
    &&& forall|i: int| 0 <= i < at ==> !takes_tab(#[trigger] targets[i], source)
}

/// What happens to a tab that was dragged out of its window.
#[derive(Clone, Copy, Debug, PartialEq, Eq, Structural)]
pub enum DropPlan {
    /// The window at `target` takes it. `close_source` says whether the tab's own window is
    /// left without tabs and closes.
    Adopt { target: usize, close_source: bool },
    /// It gets a window of its own.
    Detach,
    /// Nothing: it is the only tab of its window, which a new window would just replace.
    Keep,
}

impl DropPlan {
    /// What the window that the tab comes from is told.
    pub open spec fn told(self) -> TabDropOutcome {
        match self {
            DropPlan::Adopt { .. } => TabDropOutcome::Adopted,
            DropPlan::Detach => TabDropOutcome::Detached,
            DropPlan::Keep => TabDropOutcome::Kept,
        }
    }

    /// Where the tab goes.
    pub fn outcome(&self) -> (r: TabDropOutcome)
        ensures
            r == self.told(),
    {
        match self {
            DropPlan::Adopt { target, close_source } => TabDropOutcome::Adopted,
            DropPlan::Detach => TabDropOutcome::Detached,
            DropPlan::Keep => TabDropOutcome::Kept,
        }
    }
}

/// The plan for a tab of the window `source`, which has `remaining` tabs.
pub open spec fn is_drop_plan(
    plan: DropPlan,
    targets: Seq<DropTarget>,
    source: Seq<char>,
    remaining: u32,
) -> bool {
    match plan {
        DropPlan::Adopt { target, close_source } => first_taker(targets, source, target as int)
            && close_source == (source != "control"@ && remaining <= 1),
        DropPlan::Detach => remaining > 1 && forall|i: int|
            0 <= i < targets.len() ==> !takes_tab(#[trigger] targets[i], source),
        DropPlan::Keep => remaining <= 1 && forall|i: int|
            0 <= i < targets.len() ==> !takes_tab(#[trigger] targets[i], source),
    }
}

/// Decides what happens to a tab of the window `source`, which has `remaining` tabs. The
/// main window never closes on this account: that would hide the launcher.
pub fn drop_tab(targets: &Vec<DropTarget>, source: &str, remaining: u32) -> (r: DropPlan)
    ensures
        is_drop_plan(r, targets@, source@, remaining),
{
    let mut at: usize = 0;
    while at < targets.len()
        invariant
            at <= targets.len(),
            forall|i: int| 0 <= i < at ==> !takes_tab(#[trigger] targets@[i], source@),
        decreases targets.len() - at,
    {
        let target: &DropTarget = &targets[at];
        if !text::same_text(target.label.as_str(), source) && text::starts_with(
            target.label.as_str(),
            "control",
        ) && !target.minimized && target.visible && target.hit {
            let close_source: bool = !text::same_text(source, "control") && remaining <= 1;
            return DropPlan::Adopt { target: at, close_source };
        }
        at += 1;
    }
    if remaining <= 1 {
        DropPlan::Keep
    } else {
        DropPlan::Detach
    }
}

/// Why the page of the service cannot be shown, where it cannot.
pub open spec fn page_complaint(phase: Phase) -> Option<Seq<char>> {
    if phase == Phase::Ready {
        None
    } else {
        Some("dsh Web 服务尚未就绪"@)
    }
}

/// Tells whether the page of the service can be shown.
pub fn open_workspace<C>(runtime: &RuntimeState<C>) -> (r: Result<(), String>)
    ensures
        match page_complaint(runtime.phase) {
            Some(message) => r is Err && r->Err_0@ == message,
            None => r is Ok,
        },
{
    if runtime.phase != Phase::Ready {
        return Err("dsh Web 服务尚未就绪".to_string());
    }
    Ok(())
}

/// What closing a window does.
#[derive(Clone, Copy, Debug, PartialEq, Eq, Structural)]
pub enum CloseAction {
    /// The window closes.
    Close,
    /// The window is hidden, and the launcher stays in the tray.
    Hide,
    /// The launcher ends, after the service if that is to be stopped.
    Exit { stop_service: bool },
}

/// What closing a window does: only the main window stands for the launcher.
pub open spec fn closing(label: Seq<char>, config: LauncherConfig) -> CloseAction {
    if label != "control"@ {
        CloseAction::Close
    } else if config.close_behavior == CloseBehavior::Tray {
        CloseAction::Hide
    } else {
        CloseAction::Exit { stop_service: config.stop_dsh_on_exit }
    }
}

/// Decides what closing a window does.
pub fn close_requested(label: &str, config: &LauncherConfig) -> (r: CloseAction)
    ensures
        r == closing(label@, *config),
{
    if !text::same_text(label, "control") {
        CloseAction::Close
    } else if config.close_behavior == CloseBehavior::Tray {
        CloseAction::Hide
    } else {
        CloseAction::Exit { stop_service: config.stop_dsh_on_exit }
    }
}

/// What an item of the tray's menu does.
#[derive(Clone, Copy, Debug, PartialEq, Eq, Structural)]
pub enum TrayAction {
    /// Show the page of the service, or the main window where there is none.
    Open,
    /// Show the main window.
    Settings,
    /// Stop the service and start it again.
    Restart,
    /// End the launcher, after the service if that is to be stopped.
    Quit { stop_service: bool },
    /// Nothing.
    Ignore,
}

/// What an item of the tray's menu does.
pub open spec fn chosen(id: Seq<char>, config: LauncherConfig) -> TrayAction {
    if id == "open"@ {
        TrayAction::Open
    } else if id == "settings"@ {
        TrayAction::Settings
    } else if id == "restart"@ {
        TrayAction::Restart
    } else if id == "quit"@ {
        TrayAction::Quit { stop_service: config.stop_dsh_on_exit }
    } else {
        TrayAction::Ignore
    }
}

/// Decides what an item of the tray's menu does.
pub fn tray_action(id: &str, config: &LauncherConfig) -> (r: TrayAction)
    ensures
        r == chosen(id@, *config),
        id@ == "open"@ ==> r == TrayAction::Open,
        id@ == "settings"@ ==> r == TrayAction::Settings,
        id@ == "restart"@ ==> r == TrayAction::Restart,
        id@ == "quit"@ ==> r == (TrayAction::Quit { stop_service: config.stop_dsh_on_exit }),
        id@ != "open"@ && id@ != "settings"@ && id@ != "restart"@ && id@ != "quit"@ ==> r
            == TrayAction::Ignore,
{
    proof {
        reveal_strlit("open");
        reveal_strlit("settings");
        reveal_strlit("restart");
        reveal_strlit("quit");
        assert("open"@[0] == 'o' && "settings"@[0] == 's' && "restart"@[0] == 'r' && "quit"@[0]
            == 'q');
    }
    if text::same_text(id, "open") {
        TrayAction::Open
    } else if text::same_text(id, "settings") {
        TrayAction::Settings
    } else if text::same_text(id, "restart") {
        TrayAction::Restart
    } else if text::same_text(id, "quit") {
        TrayAction::Quit { stop_service: config.stop_dsh_on_exit }
    } else {
        TrayAction::Ignore
    }
}

/// The script that shows a title, given as a JSON string, in the preview of a dragged tab.
pub fn title_script(quoted: &str) -> (r: String)
    ensures
        r@ == "window.setTabTitle?.("@ + quoted@ + ")"@,
{
    let mut script: String = "window.setTabTitle?.(".to_string();
    script.append(quoted);
    script.append(")");
    script
}

/// Makes the script that shows a title in the preview of a dragged tab.
pub fn show_tab_drag_preview(title: &str) -> (r: Result<String, String>)
    ensures
        match json::json_string(title@) {
            Ok(quoted) => r is Ok && r->Ok_0@ == "window.setTabTitle?.("@ + quoted + ")"@,
            Err(error) => r is Err && r->Err_0@ == json::error_chars(error),
        },
{
    match json::quote(title) {
        Ok(quoted) => Ok(title_script(quoted.as_str())),
        Err(error) => Err(json::error_text(&error)),
    }
}

/// Only closing the main window touches the launcher: it is hidden where the launcher is to stay in
/// the tray, and ends it otherwise, after the service if the settings say so.
pub proof fn law_what_closing_a_window_does(label: Seq<char>, config: LauncherConfig)
    ensures
        label != "control"@ ==> closing(label, config) == CloseAction::Close,
        config.close_behavior == CloseBehavior::Tray ==> closing("control"@, config)
            == CloseAction::Hide,
        config.close_behavior == CloseBehavior::Exit ==> closing("control"@, config) == (
        CloseAction::Exit { stop_service: config.stop_dsh_on_exit }),
        closing(label, config) is Exit <==> label == "control"@ && config.close_behavior
            == CloseBehavior::Exit,
{
}

/// Each item of the tray's menu does what it is called; only the one for it ends the launcher, and
/// with it the service if the settings say so.
pub proof fn law_what_the_tray_does(id: Seq<char>, config: LauncherConfig)
    ensures
        chosen("open"@, config) == TrayAction::Open,
        chosen("settings"@, config) == TrayAction::Settings,
        chosen("restart"@, config) == TrayAction::Restart,
        chosen("quit"@, config) == (TrayAction::Quit { stop_service: config.stop_dsh_on_exit }),
        chosen(id, config) is Quit <==> id == "quit"@,
        chosen(id, config) is Restart <==> id == "restart"@,
        chosen(id, config) == TrayAction::Ignore <==> id != "open"@ && id != "settings"@ && id
            != "restart"@ && id != "quit"@,
{
    reveal_strlit("open");
    reveal_strlit("settings");
    reveal_strlit("restart");
    reveal_strlit("quit");
    assert("open"@[0] == 'o' && "settings"@[0] == 's' && "restart"@[0] == 'r' && "quit"@[0] == 'q');
}

/// Which windows take a tab: those of the launcher, but not the one that the tab comes from, that
/// can be seen and have the cursor over their tabs.
pub proof fn law_which_windows_take_a_tab(target: DropTarget, source: Seq<char>, rest: Seq<char>)
    ensures
        target.label@ == source ==> !takes_tab(target, source),
        target.minimized || !target.visible || !target.hit ==> !takes_tab(target, source),
        target.label@ == "control"@ + rest && target.label@ != source && !target.minimized
            && target.visible && target.hit ==> takes_tab(target, source),
        takes_tab(target, source) ==> "control"@.is_prefix_of(target.label@),
{
    let prefix = "control"@;
    assert((prefix + rest).subrange(0, prefix.len() as int) =~= prefix);
}

/// Where a tab goes: to the first window that takes it; without one it gets a window of its own,
/// unless it is the only tab. Its window closes where it gave its last tab away, but never the
/// main window.
pub proof fn law_where_a_tab_goes(
    plan: DropPlan,
    targets: Seq<DropTarget>,
    source: Seq<char>,
    remaining: u32,
    at: int,
)
    requires
        is_drop_plan(plan, targets, source, remaining),
    ensures
        0 <= at < targets.len() && takes_tab(targets[at], source) ==> (plan matches DropPlan::Adopt {
            target,
            ..
        } && target <= at && takes_tab(targets[target as int], source)),
        (forall|i: int| 0 <= i < targets.len() ==> !takes_tab(#[trigger] targets[i], source))
            ==> plan == (if remaining > 1 { DropPlan::Detach } else { DropPlan::Keep }),
        plan matches DropPlan::Adopt { close_source, .. } ==> (close_source <==> remaining <= 1 && source
            != "control"@),
        source == "control"@ ==> !(plan matches DropPlan::Adopt { close_source: true, .. }),
{
}

/// The labels of further windows are `control-` and a number.
pub proof fn law_what_windows_are_called(number: nat)
    ensures
        window_label(number) == "control-"@ + text::decimal(number),
{
}

/// The page can be shown exactly while the service is ready.
pub proof fn law_when_the_page_can_be_shown(phase: Phase)
    ensures
        page_complaint(phase) is None <==> phase == Phase::Ready,
        page_complaint(phase) is Some ==> page_complaint(phase)->0 == "dsh Web 服务尚未就绪"@,
{
}

/// A window is told of its tab what the plan does with it.
pub proof fn law_what_a_window_is_told_of_its_tab(plan: DropPlan)
    ensures
        plan.told() == TabDropOutcome::Adopted <==> plan is Adopt,
        plan.told() == TabDropOutcome::Detached <==> plan is Detach,
        plan.told() == TabDropOutcome::Kept <==> plan is Keep,
{
}

} // verus!
