//! The page on which shortcuts are changed. Changes are staged and written together.

use vstd::prelude::*;

use crate::keys::{conflicts_of, find_conflicts, in_conflict, is_modifier, is_modifier_only};
use crate::text::same_text;
use crate::tg::copy_option;

verus! {

/// The key that cancels typing a shortcut.
pub const ESCAPE: u32 = 0xff1b;

/// The key that goes back to the default shortcut.
pub const BACKSPACE: u32 = 0xff08;

/// The key that is none.
pub const VOID_SYMBOL: u32 = 0xff_ffff;

/// An action that can have a shortcut.
#[derive(Debug, PartialEq, Eq)]
pub struct KeyAction {
    pub id: String,
    pub label: String,
    pub group: String,
    pub default: String,
    /// The shortcut that the settings give it.
    pub stored: String,
}

/// An action's row.
#[derive(Debug, PartialEq, Eq)]
pub struct KeyRow {
    pub id: String,
    pub label: String,
    pub group: String,
    pub default: String,
    pub stored: String,
    /// The shortcut that it gets once the changes are saved.
    pub pending: Option<String>,
    /// Whether a shortcut is being typed in.
    pub typing: bool,
    pub note: String,
    pub note_visible: bool,
    pub note_conflict: bool,
    pub accel_conflict: bool,
}

/// What became of a key while a shortcut is typed in.
#[derive(Debug, Clone, Copy, PartialEq, Eq, Structural)]
pub enum CaptureOutcome {
    /// No shortcut is being typed in.
    Proceed,
    /// The key was taken, and nothing was staged.
    Stop,
    /// A shortcut was staged.
    Staged,
}

/// What the settings are told of one action.
#[derive(Debug, PartialEq, Eq)]
pub struct KeyChange {
    pub id: String,
    /// The action's shortcut, or none where it is the default one.
    pub accel: Option<String>,
}

/// What saving the changes leads to.
#[derive(Debug, PartialEq, Eq)]
pub enum SaveStep {
    /// Two actions have the same shortcut.
    Refused,
    /// There is nothing to save.
    Nothing,
    /// This is to be written.
    Write(Vec<KeyChange>),
}

/// The page.
pub struct KeysView {
    pub rows: Vec<KeyRow>,
    /// The row for which a shortcut is typed in.
    pub capturing: Option<usize>,
    pub save_sensitive: bool,
    pub status: String,
    pub status_visible: bool,
}

/// The shortcut that a row shows.
pub open spec fn shown(row: KeyRow) -> Seq<char> {
    match row.pending {
        Some(accel) => accel@,
        None => row.stored@,
    }
}

/// A row without anything staged.
pub open spec fn plain_row(row: KeyRow, action: KeyAction) -> bool {
    &&& row.id == action.id
    &&& row.label == action.label
    &&& row.group == action.group
    &&& row.default == action.default
    &&& row.stored == action.stored
    &&& row.pending is None
    &&& !row.typing
    &&& !row.note_visible
    &&& !row.note_conflict
    &&& !row.accel_conflict
}

/// Which actions belong to a group.
pub open spec fn of_group(group: Seq<char>) -> spec_fn(KeyAction) -> bool {
    |action: KeyAction| action.group@ == group
}

/// The ids, groups and shortcuts of the rows, as conflicts are looked for.
pub open spec fn compared(rows: Seq<KeyRow>, forms: Seq<Option<(u32, u32)>>) -> Seq<
    (String, String, Option<(u32, u32)>),
> {
    Seq::new(rows.len(), |i: int| (rows[i].id, rows[i].group, forms[i]))
}

/// The rows before `end` that are in the way of the row at `at`.
pub open spec fn partners(
    rows: Seq<(String, String, Option<(u32, u32)>)>,
    at: int,
    end: int,
) -> Seq<int>
    decreases end,
{
    if end <= 0 {
        Seq::empty()
    } else {
        let earlier = partners(rows, at, end - 1);
        if end - 1 != at && in_conflict(rows, at, end - 1) {
            earlier.push(end - 1)
        } else {
            earlier
        }
    }
}

/// The labels of some rows with commas between them.
pub open spec fn labels(rows: Seq<KeyRow>, at: Seq<int>) -> Seq<char>
    decreases at.len(),
{
    if at.len() == 0 {
        Seq::empty()
    } else if at.len() == 1 {
        rows[at[0]].label@
    } else {
        labels(rows, at.drop_last()) + ", "@ + rows[at.last()].label@
    }
}

/// A row once its conflicts are known.
pub open spec fn row_refreshed(
    before: KeyRow,
    after: KeyRow,
    capturing: bool,
    conflict: bool,
    names: Seq<char>,
) -> bool {
    if conflict {
        &&& after.note@ == "also used by "@ + names
        &&& after == (KeyRow {
            note: after.note,
            note_visible: true,
            note_conflict: true,
            accel_conflict: true,
            ..before
        })
    } else if capturing {
        after == (KeyRow { accel_conflict: false, ..before })
    } else {
        after == (KeyRow {
            accel_conflict: false,
            note_conflict: false,
            note_visible: false,
            ..before
        })
    }
}

/// Whether anything is staged.
pub open spec fn staged(rows: Seq<KeyRow>) -> bool {
    exists|i: int| 0 <= i < rows.len() && (#[trigger] rows[i]).pending is Some
}

/// Where the row of an action is.
pub open spec fn place_of(rows: Seq<KeyRow>, id: Seq<char>) -> Option<int>
    decreases rows.len(),
{
    if rows.len() == 0 {
        None
    } else {
        match place_of(rows.drop_last(), id) {
            Some(at) => Some(at),
            None => if rows.last().id@ == id {
                Some(rows.len() - 1)
            } else {
                None
            },
        }
    }
}

proof fn lemma_no_row(rows: Seq<KeyRow>, id: Seq<char>)
    requires
        forall|i: int| 0 <= i < rows.len() ==> (#[trigger] rows[i]).id@ != id,
    ensures
        place_of(rows, id) is None,
    decreases rows.len(),
{
    if rows.len() > 0 {
        assert forall|i: int| 0 <= i < rows.drop_last().len() implies (
        #[trigger] rows.drop_last()[i]).id@ != id by {
            assert(rows[i].id@ != id);
        }
        lemma_no_row(rows.drop_last(), id);
        assert(rows[rows.len() - 1].id@ != id);
    }
}

proof fn lemma_place(rows: Seq<KeyRow>, id: Seq<char>, at: int)
    requires
        0 <= at < rows.len(),
        rows[at].id@ == id,
        forall|i: int| 0 <= i < at ==> (#[trigger] rows[i]).id@ != id,
    ensures
        place_of(rows, id) == Some(at),
    decreases rows.len(),
{
    let rest = rows.drop_last();
    assert forall|i: int| 0 <= i < at implies (#[trigger] rest[i]).id@ != id by {
        assert(rows[i].id@ != id);
    }
    if at < rest.len() {
        lemma_place(rest, id, at);
    } else {
        lemma_no_row(rest, id);
    }
}

/// What the settings are told of a row.
pub open spec fn is_change(change: KeyChange, row: KeyRow) -> bool {
    &&& row.pending is Some
    &&& change.id == row.id
    &&& change.accel == (if row.pending->0@ == row.default@ {
        None
    } else {
        row.pending
    })
}

/// The rows with something staged.
pub open spec fn staged_rows(rows: Seq<KeyRow>) -> Seq<KeyRow> {
    rows.filter(|row: KeyRow| row.pending is Some)
}

impl KeyRow {
    fn copy(&self) -> (row: KeyRow)
        ensures
            row == *self,
    {
        KeyRow {
            id: self.id.clone(),
            label: self.label.clone(),
            group: self.group.clone(),
            default: self.default.clone(),
            stored: self.stored.clone(),
            pending: copy_option(&self.pending),
            typing: self.typing,
            note: self.note.clone(),
            note_visible: self.note_visible,
            note_conflict: self.note_conflict,
            accel_conflict: self.accel_conflict,
        }
    }

    /// The shortcut that the row shows.
    pub fn resolved(&self) -> (accel: String)
        ensures
            accel@ == shown(*self),
    {
        match &self.pending {
            Some(accel) => accel.clone(),
            None => self.stored.clone(),
        }
    }
}

fn row_for(action: &KeyAction) -> (row: KeyRow)
    ensures
        plain_row(row, *action),
{
    KeyRow {
        id: action.id.clone(),
        label: action.label.clone(),
        group: action.group.clone(),
        default: action.default.clone(),
        stored: action.stored.clone(),
        pending: None,
        typing: false,
        note: String::new(),
        note_visible: false,
        note_conflict: false,
        accel_conflict: false,
    }
}

/// Whether rows are those of some actions.
pub open spec fn rows_for(rows: Seq<KeyRow>, actions: Seq<KeyAction>) -> bool {
    &&& rows.len() == actions.len()
    &&& forall|i: int| 0 <= i < rows.len() ==> plain_row(#[trigger] rows[i], actions[i])
}

fn add_group(rows: &mut Vec<KeyRow>, actions: &Vec<KeyAction>, group: &str, Ghost(before): Ghost<Seq<KeyAction>>)
    requires
        rows_for(old(rows)@, before),
    ensures
        rows_for(final(rows)@, before + actions@.filter(of_group(group@))),
{
    let ghost keep = of_group(group@);
    let mut i: usize = 0;
    proof {
        reveal(Seq::filter);
        assert(actions@.take(0) =~= Seq::<KeyAction>::empty());
        assert(before + Seq::<KeyAction>::empty() =~= before);
    }
    while i < actions.len()
        invariant
            i <= actions@.len(),
            keep == of_group(group@),
            rows_for(rows@, before + actions@.take(i as int).filter(keep)),
        decreases actions@.len() - i,
    {
        let ghost now = actions@.take(i as int).filter(keep);
        proof {
            reveal(Seq::filter);
            assert(actions@.take(i + 1).drop_last() =~= actions@.take(i as int));
            assert(actions@.take(i + 1).last() == actions@[i as int]);
        }
        if same_text(actions[i].group.as_str(), group) {
            rows.push(row_for(&actions[i]));
            assert(before + now.push(actions@[i as int]) =~= (before + now).push(
                actions@[i as int],
            ));
        }
        i += 1;
    }
    assert(actions@.take(i as int) =~= actions@);
}

impl KeysView {
    /// A shortcut is typed in for a row that there is.
    pub open spec fn well_formed(self) -> bool {
        self.capturing is Some ==> self.capturing->0 < self.rows@.len()
    }

    /// The rows of the global actions, and below them those of the composer's.
    pub fn new(actions: &Vec<KeyAction>) -> (view: KeysView)
        ensures
            view.well_formed(),
            rows_for(
                view.rows@,
                actions@.filter(of_group("Global"@)) + actions@.filter(of_group("Composer"@)),
            ),
            view.capturing is None,
            !view.save_sensitive,
            view.status@.len() == 0,
            !view.status_visible,
    {
        let mut rows: Vec<KeyRow> = Vec::new();
        add_group(&mut rows, actions, "Global", Ghost(Seq::empty()));
        proof {
            let first = actions@.filter(of_group("Global"@));
            assert(Seq::<KeyAction>::empty() + first =~= first);
        }
        add_group(&mut rows, actions, "Composer", Ghost(actions@.filter(of_group("Global"@))));
        KeysView {
            rows,
            capturing: None,
            save_sensitive: false,
            status: String::new(),
            status_visible: false,
        }
    }

    fn compared_rows(&self, forms: &Vec<Option<(u32, u32)>>) -> (rows: Vec<
        (String, String, Option<(u32, u32)>),
    >)
        requires
            forms@.len() == self.rows@.len(),
        ensures
            rows@ == compared(self.rows@, forms@),
    {
        let mut rows: Vec<(String, String, Option<(u32, u32)>)> = Vec::new();
        let mut i: usize = 0;
        while i < self.rows.len()
            invariant
                i <= self.rows@.len(),
                forms@.len() == self.rows@.len(),
                rows@.len() == i,
                forall|j: int|
                    0 <= j < i ==> #[trigger] rows@[j] == (
                        self.rows@[j].id,
                        self.rows@[j].group,
                        forms@[j],
                    ),
            decreases self.rows@.len() - i,
        {
            rows.push((self.rows[i].id.clone(), self.rows[i].group.clone(), forms[i]));
            i += 1;
        }
        assert(rows@ =~= compared(self.rows@, forms@));
        rows
    }

    /// The names of the rows that are in the way of a row, or nothing where none is.
    fn rivals(&self, rows: &Vec<(String, String, Option<(u32, u32)>)>, at: usize) -> (names:
        Option<String>)
        requires
            rows@.len() == self.rows@.len(),
            at < rows@.len(),
        ensures
            match names {
                Some(names) => partners(rows@, at as int, rows@.len() as int).len() > 0 && names@
                    == labels(self.rows@, partners(rows@, at as int, rows@.len() as int)),
                None => partners(rows@, at as int, rows@.len() as int).len() == 0,
            },
    {
        let mut names: Option<String> = None;
        let mut i: usize = 0;
        while i < rows.len()
            invariant
                i <= rows@.len(),
                at < rows@.len(),
                rows@.len() == self.rows@.len(),
                match names {
                    Some(names) => partners(rows@, at as int, i as int).len() > 0 && names@
                        == labels(self.rows@, partners(rows@, at as int, i as int)),
                    None => partners(rows@, at as int, i as int).len() == 0,
                },
            decreases rows@.len() - i,
        {
            let ghost now = partners(rows@, at as int, i as int);
            if i != at && conflicting(&rows[at], &rows[i]) {
                assert(partners(rows@, at as int, i + 1) == now.push(i as int));
                assert(now.push(i as int).drop_last() =~= now);
                names = Some(
                    match names {
                        Some(earlier) => {
                            let mut list = earlier;
                            list.push_str(", ");
                            list.push_str(&self.rows[i].label);
                            list
                        },
                        None => self.rows[i].label.clone(),
                    },
                );
            }
            i += 1;
        }
        names
    }

    /// What the page shows once the rows' shortcuts are compared. `forms` holds each
    /// row's shortcut in the form in which shortcuts are compared.
    pub open spec fn refreshed(self, before: KeysView, forms: Seq<Option<(u32, u32)>>) -> bool {
        let rows = compared(before.rows@, forms);
        let conflicts = conflicts_of(rows, rows.len() as int);
        &&& self.capturing == before.capturing
        &&& self.rows@.len() == before.rows@.len()
        &&& forall|i: int|
            0 <= i < self.rows@.len() ==> row_refreshed(
                before.rows@[i],
                #[trigger] self.rows@[i],
                before.capturing == Some(i as usize),
                partners(rows, i, rows.len() as int).len() > 0,
                labels(before.rows@, partners(rows, i, rows.len() as int)),
            )
        &&& if conflicts.len() == 0 {
            &&& self.save_sensitive == staged(before.rows@)
            &&& self.status@ == before.status@
            &&& self.status_visible == (before.status_visible && before.status@
                != "Resolve the highlighted conflicts first"@)
        } else {
            &&& !self.save_sensitive
            &&& self.status@ == "Resolve the highlighted conflicts first"@
            &&& self.status_visible
        }
    }

    /// Looks for conflicts again.
    pub fn refresh(&mut self, forms: &Vec<Option<(u32, u32)>>)
        requires
            old(self).well_formed(),
            forms@.len() == old(self).rows@.len(),
        ensures
            final(self).well_formed(),
            final(self).refreshed(*old(self), forms@),
    {
        let rows = self.compared_rows(forms);
        let conflicts = find_conflicts(rows.as_slice());
        let pending = self.has_staged();
        let mut fresh: Vec<KeyRow> = Vec::new();
        let mut i: usize = 0;
        while i < self.rows.len()
            invariant
                i <= self.rows@.len(),
                *self == *old(self),
                rows@ == compared(self.rows@, forms@),
                rows@.len() == self.rows@.len(),
                fresh@.len() == i,
                forall|j: int|
                    0 <= j < i ==> row_refreshed(
                        self.rows@[j],
                        #[trigger] fresh@[j],
                        self.capturing == Some(j as usize),
                        partners(rows@, j, rows@.len() as int).len() > 0,
                        labels(self.rows@, partners(rows@, j, rows@.len() as int)),
                    ),
            decreases self.rows@.len() - i,
        {
            let capturing = match self.capturing {
                Some(at) => at == i,
                None => false,
            };
            let names = self.rivals(&rows, i);
            let mut row = self.rows[i].copy();
            match names {
                Some(names) => {
                    let mut note = "also used by ".to_owned();
                    note.push_str(&names);
                    row.note = note;
                    row.note_visible = true;
                    row.note_conflict = true;
                    row.accel_conflict = true;
                },
                None => {
                    row.accel_conflict = false;
                    if !capturing {
                        row.note_conflict = false;
                        row.note_visible = false;
                    }
                },
            }
            fresh.push(row);
            i += 1;
        }
        self.rows = fresh;
        if conflicts.len() == 0 {
            self.save_sensitive = pending;
            if same_text(self.status.as_str(), "Resolve the highlighted conflicts first") {
                self.status_visible = false;
            }
        } else {
            self.save_sensitive = false;
            self.status = "Resolve the highlighted conflicts first".to_owned();
            self.status_visible = true;
        }
    }

    fn has_staged(&self) -> (answer: bool)
        ensures
            answer == staged(self.rows@),
    {
        let mut i: usize = 0;
        while i < self.rows.len()
            invariant
                i <= self.rows@.len(),
                forall|j: int| 0 <= j < i ==> (#[trigger] self.rows@[j]).pending is None,
            decreases self.rows@.len() - i,
        {
            if self.rows[i].pending.is_some() {
                return true;
            }
            i += 1;
        }
        false
    }

    /// Whether a shortcut is to be typed in for a row.
    pub open spec fn capture_begun(self, before: KeysView, at: int) -> bool {
        &&& self.capturing == Some(at as usize)
        &&& self.rows@[at].note@ == "Esc cancels · Backspace resets to default"@
        &&& self.rows@ == before.rows@.update(
            at,
            KeyRow {
                typing: true,
                note: self.rows@[at].note,
                note_visible: true,
                note_conflict: false,
                ..before.rows@[at]
            },
        )
        &&& self == (KeysView { rows: self.rows, capturing: self.capturing, ..before })
    }

    /// A shortcut is to be typed in for a row.
    pub fn begin_capture(&mut self, at: usize)
        requires
            at < old(self).rows@.len(),
        ensures
            final(self).well_formed(),
            final(self).capture_begun(*old(self), at as int),
    {
        self.capturing = Some(at);
        let mut row = self.rows[at].copy();
        row.typing = true;
        row.note = "Esc cancels · Backspace resets to default".to_owned();
        row.note_visible = true;
        row.note_conflict = false;
        self.rows.set(at, row);
    }

    /// The rows, in none of which a shortcut is typed in.
    pub open spec fn at_rest(rows: Seq<KeyRow>) -> Seq<KeyRow> {
        rows.map_values(|row: KeyRow| KeyRow { typing: false, ..row })
    }

    /// No shortcut is typed in any more.
    pub fn end_capture(&mut self)
        ensures
            final(self).well_formed(),
            final(self).capturing is None,
            final(self).rows@ == KeysView::at_rest(old(self).rows@),
            *final(self) == (KeysView {
                rows: final(self).rows,
                capturing: final(self).capturing,
                ..*old(self)
            }),
    {
        self.capturing = None;
        let ghost before = self.rows@;
        let mut i: usize = 0;
        while i < self.rows.len()
            invariant
                i <= self.rows@.len(),
                self.rows@.len() == before.len(),
                *self == (KeysView { rows: self.rows, capturing: None, ..*old(self) }),
                forall|j: int|
                    0 <= j < i ==> #[trigger] self.rows@[j] == (KeyRow {
                        typing: false,
                        ..before[j]
                    }),
                forall|j: int| i <= j < before.len() ==> #[trigger] self.rows@[j] == before[j],
            decreases self.rows@.len() - i,
        {
            let mut row = self.rows[i].copy();
            row.typing = false;
            self.rows.set(i, row);
            i += 1;
        }
        assert(self.rows@ =~= KeysView::at_rest(before));
    }

    /// Typing a shortcut is given up.
    pub fn cancel_capture(&mut self)
        ensures
            final(self).well_formed(),
            final(self).capturing is None,
            final(self).rows@ == KeysView::at_rest(old(self).rows@),
            *final(self) == (KeysView {
                rows: final(self).rows,
                capturing: final(self).capturing,
                ..*old(self)
            }),
    {
        self.end_capture();
    }

    /// A row lost the focus. Typing a shortcut for it is given up. Returns whether
    /// that was going on.
    pub fn focus_lost(&mut self, at: usize) -> (ended: bool)
        requires
            old(self).well_formed(),
        ensures
            final(self).well_formed(),
            ended == (old(self).capturing == Some(at)),
            !ended ==> *final(self) == *old(self),
            ended ==> {
                &&& final(self).capturing is None
                &&& final(self).rows@ == KeysView::at_rest(old(self).rows@)
            },
            *final(self) == (KeysView {
                rows: final(self).rows,
                capturing: final(self).capturing,
                ..*old(self)
            }),
    {
        match self.capturing {
            Some(row) => {
                if row == at {
                    self.end_capture();
                    return true;
                }
            },
            None => {},
        }
        false
    }

    fn hint(&mut self, at: usize, text: &str)
        requires
            at < old(self).rows@.len(),
        ensures
            final(self).rows@[at as int].note@ == text@,
            final(self).rows@ == old(self).rows@.update(
                at as int,
                KeyRow {
                    note: final(self).rows@[at as int].note,
                    note_visible: true,
                    ..old(self).rows@[at as int]
                },
            ),
            *final(self) == (KeysView { rows: final(self).rows, ..*old(self) }),
    {
        let mut row = self.rows[at].copy();
        row.note = text.to_owned();
        row.note_visible = true;
        self.rows.set(at, row);
    }

    fn stage(&mut self, at: usize, accel: String)
        requires
            at < old(self).rows@.len(),
        ensures
            final(self).rows@ == old(self).rows@.update(
                at as int,
                KeyRow { pending: Some(accel), ..old(self).rows@[at as int] },
            ),
            *final(self) == (KeysView { rows: final(self).rows, ..*old(self) }),
    {
        let mut row = self.rows[at].copy();
        row.pending = Some(accel);
        self.rows.set(at, row);
    }

    /// What a key does while a shortcut is typed in for the row at `at`.
    pub open spec fn captured(
        self,
        before: KeysView,
        at: int,
        key: u32,
        accel: Seq<char>,
        valid: bool,
        outcome: CaptureOutcome,
    ) -> bool {
        if key == ESCAPE {
            &&& outcome is Stop
            &&& self.capturing is None
            &&& self.rows@ == KeysView::at_rest(before.rows@)
        } else if key == BACKSPACE {
            &&& outcome is Staged
            &&& self.capturing is None
            &&& self.rows@ == KeysView::at_rest(
                before.rows@.update(
                    at,
                    KeyRow { pending: Some(before.rows@[at].default), ..before.rows@[at] },
                ),
            )
        } else if is_modifier(key) || key == VOID_SYMBOL || accel.len() == 0 || !valid {
            &&& outcome is Stop
            &&& self.capturing == before.capturing
            &&& self.rows@[at].note@ == (if is_modifier(key) {
                "Modifiers need a key — press the full shortcut"@
            } else {
                "That key can't be bound"@
            })
            &&& self.rows@ == before.rows@.update(
                at,
                KeyRow { note: self.rows@[at].note, note_visible: true, ..before.rows@[at] },
            )
        } else {
            &&& outcome is Staged
            &&& self.capturing is None
            &&& self.rows@[at].pending is Some
            &&& self.rows@[at].pending->0@ == accel
            &&& self.rows@ == KeysView::at_rest(
                before.rows@.update(
                    at,
                    KeyRow { pending: self.rows@[at].pending, ..before.rows@[at] },
                ),
            )
        }
    }

    /// A key was pressed. `accel` names it with its modifiers, and `valid` tells
    /// whether it can be a shortcut.
    pub fn on_capture_key(&mut self, key: u32, accel: &str, valid: bool) -> (outcome:
        CaptureOutcome)
        requires
            old(self).well_formed(),
        ensures
            final(self).well_formed(),
            old(self).capturing is None ==> outcome is Proceed && *final(self) == *old(self),
            old(self).capturing is Some ==> final(self).captured(
                *old(self),
                old(self).capturing->0 as int,
                key,
                accel@,
                valid,
                outcome,
            ),
            *final(self) == (KeysView {
                rows: final(self).rows,
                capturing: final(self).capturing,
                ..*old(self)
            }),
    {
        let at = match self.capturing {
            Some(at) => at,
            None => return CaptureOutcome::Proceed,
        };
        if key == ESCAPE {
            self.end_capture();
            return CaptureOutcome::Stop;
        }
        if key == BACKSPACE {
            let default = self.rows[at].default.clone();
            self.stage(at, default);
            self.end_capture();
            return CaptureOutcome::Staged;
        }
        if is_modifier_only(key) {
            self.hint(at, "Modifiers need a key — press the full shortcut");
            return CaptureOutcome::Stop;
        }
        if key == VOID_SYMBOL || accel.is_empty() || !valid {
            self.hint(at, "That key can't be bound");
            return CaptureOutcome::Stop;
        }
        self.stage(at, accel.to_owned());
        self.end_capture();
        CaptureOutcome::Staged
    }

    fn changes(&self) -> (changes: Vec<KeyChange>)
        ensures
            changes@.len() == staged_rows(self.rows@).len(),
            forall|i: int|
                0 <= i < changes@.len() ==> is_change(
                    #[trigger] changes@[i],
                    staged_rows(self.rows@)[i],
                ),
    {
        let ghost keep = |row: KeyRow| row.pending is Some;
        let mut changes: Vec<KeyChange> = Vec::new();
        let mut i: usize = 0;
        proof {
            reveal(Seq::filter);
            assert(self.rows@.take(0) =~= Seq::<KeyRow>::empty());
        }
        while i < self.rows.len()
            invariant
                i <= self.rows@.len(),
                keep == (|row: KeyRow| row.pending is Some),
                changes@.len() == self.rows@.take(i as int).filter(keep).len(),
                forall|j: int|
                    0 <= j < changes@.len() ==> is_change(
                        #[trigger] changes@[j],
                        self.rows@.take(i as int).filter(keep)[j],
                    ),
            decreases self.rows@.len() - i,
        {
            proof {
                reveal(Seq::filter);
                assert(self.rows@.take(i + 1).drop_last() =~= self.rows@.take(i as int));
                assert(self.rows@.take(i + 1).last() == self.rows@[i as int]);
            }
            if let Some(accel) = &self.rows[i].pending {
                let default = same_text(accel.as_str(), self.rows[i].default.as_str());
                changes.push(
                    KeyChange {
                        id: self.rows[i].id.clone(),
                        accel: if default { None } else { Some(accel.clone()) },
                    },
                );
            }
            i += 1;
        }
        assert(self.rows@.take(i as int) =~= self.rows@);
        assert(staged_rows(self.rows@) == self.rows@.filter(keep));
        changes
    }

    /// Saves what is staged, unless two actions of one group have the same shortcut.
    /// A shortcut that is the default one is not written but forgotten.
    pub fn save(&mut self, forms: &Vec<Option<(u32, u32)>>) -> (step: SaveStep)
        requires
            forms@.len() == old(self).rows@.len(),
        ensures
            ({
                let rows = compared(old(self).rows@, forms@);
                let conflicts = conflicts_of(rows, rows.len() as int);
                match step {
                    SaveStep::Refused => conflicts.len() > 0,
                    SaveStep::Nothing => conflicts.len() == 0 && !staged(old(self).rows@),
                    SaveStep::Write(changes) => {
                        &&& conflicts.len() == 0
                        &&& staged(old(self).rows@)
                        &&& changes@.len() == staged_rows(old(self).rows@).len()
                        &&& forall|i: int|
                            0 <= i < changes@.len() ==> is_change(
                                #[trigger] changes@[i],
                                staged_rows(old(self).rows@)[i],
                            )
                    },
                }
            }),
            step is Refused ==> final(self).status@ == "Resolve the highlighted conflicts first"@
                && final(self).status_visible,
            !(step is Refused) ==> *final(self) == *old(self),
            *final(self) == (KeysView {
                status: final(self).status,
                status_visible: final(self).status_visible,
                ..*old(self)
            }),
    {
        let rows = self.compared_rows(forms);
        let conflicts = find_conflicts(rows.as_slice());
        if conflicts.len() > 0 {
            self.status = "Resolve the highlighted conflicts first".to_owned();
            self.status_visible = true;
            return SaveStep::Refused;
        }
        if !self.has_staged() {
            return SaveStep::Nothing;
        }
        SaveStep::Write(self.changes())
    }

    /// The rows without anything staged.
    pub open spec fn unstaged(rows: Seq<KeyRow>) -> Seq<KeyRow> {
        rows.map_values(|row: KeyRow| KeyRow { pending: None, ..row })
    }

    fn unstage(&mut self)
        ensures
            final(self).rows@ == KeysView::unstaged(old(self).rows@),
            *final(self) == (KeysView { rows: final(self).rows, ..*old(self) }),
    {
        let ghost before = self.rows@;
        let mut i: usize = 0;
        while i < self.rows.len()
            invariant
                i <= self.rows@.len(),
                self.rows@.len() == before.len(),
                *self == (KeysView { rows: self.rows, ..*old(self) }),
                forall|j: int|
                    0 <= j < i ==> #[trigger] self.rows@[j] == (KeyRow {
                        pending: None,
                        ..before[j]
                    }),
                forall|j: int| i <= j < before.len() ==> #[trigger] self.rows@[j] == before[j],
            decreases self.rows@.len() - i,
        {
            let mut row = self.rows[i].copy();
            row.pending = None;
            self.rows.set(i, row);
            i += 1;
        }
        assert(self.rows@ =~= KeysView::unstaged(before));
    }

    /// The changes were written, or could not be. Returns whether they were.
    pub fn saved(&mut self, result: Result<(), String>) -> (done: bool)
        requires
            old(self).well_formed(),
        ensures
            final(self).well_formed(),
            done == (result is Ok),
            final(self).status_visible,
            match result {
                Ok(_) => final(self).status@ == "Saved"@ && final(self).rows@
                    == KeysView::unstaged(old(self).rows@),
                Err(error) => final(self).status == error && final(self).rows == old(self).rows,
            },
            *final(self) == (KeysView {
                rows: final(self).rows,
                status: final(self).status,
                status_visible: true,
                ..*old(self)
            }),
    {
        self.status_visible = true;
        match result {
            Ok(_) => {
                self.unstage();
                self.status = "Saved".to_owned();
                true
            },
            Err(error) => {
                self.status = error;
                false
            },
        }
    }

    /// All shortcuts go back to the default ones.
    pub fn reset_all(&mut self)
        requires
            old(self).well_formed(),
        ensures
            final(self).well_formed(),
            final(self).rows@ == KeysView::unstaged(old(self).rows@),
            final(self).status@ == "All shortcuts reset to defaults"@,
            *final(self) == (KeysView {
                rows: final(self).rows,
                status: final(self).status,
                status_visible: true,
                ..*old(self)
            }),
    {
        self.unstage();
        self.status = "All shortcuts reset to defaults".to_owned();
        self.status_visible = true;
    }

    /// The settings give an action another shortcut.
    pub fn set_stored(&mut self, at: usize, accel: String)
        requires
            old(self).well_formed(),
            at < old(self).rows@.len(),
        ensures
            final(self).well_formed(),
            final(self).rows@ == old(self).rows@.update(
                at as int,
                KeyRow { stored: accel, ..old(self).rows@[at as int] },
            ),
            *final(self) == (KeysView { rows: final(self).rows, ..*old(self) }),
    {
        let mut row = self.rows[at].copy();
        row.stored = accel;
        self.rows.set(at, row);
    }

    /// The row of an action.
    pub fn row_of(&self, id: &str) -> (at: Option<usize>)
        ensures
            match at {
                Some(at) => at < self.rows@.len() && self.rows@[at as int].id@ == id@ && (forall|
                    i: int,
                | 0 <= i < at ==> (#[trigger] self.rows@[i]).id@ != id@),
                None => forall|i: int| 0 <= i < self.rows@.len() ==> (#[trigger] self.rows@[i]).id@
                    != id@,
            },
    {
        let mut i: usize = 0;
        while i < self.rows.len()
            invariant
                i <= self.rows@.len(),
                forall|j: int| 0 <= j < i ==> (#[trigger] self.rows@[j]).id@ != id@,
            decreases self.rows@.len() - i,
        {
            if same_text(self.rows[i].id.as_str(), id) {
                return Some(i);
            }
            i += 1;
        }
        None
    }

    /// Stages a shortcut. Returns whether there is such an action.
    pub fn probe_stage(&mut self, id: &str, accel: &str) -> (found: bool)
        requires
            old(self).well_formed(),
        ensures
            final(self).well_formed(),
            !found ==> *final(self) == *old(self) && forall|i: int|
                0 <= i < old(self).rows@.len() ==> (#[trigger] old(self).rows@[i]).id@ != id@,
            found ==> exists|at: int|
                0 <= at < old(self).rows@.len() && (#[trigger] old(self).rows@[at]).id@ == id@ && (
                forall|i: int| 0 <= i < at ==> (#[trigger] old(self).rows@[i]).id@ != id@)
                    && final(self).rows@ == old(self).rows@.update(
                    at,
                    KeyRow { pending: final(self).rows@[at].pending, ..old(self).rows@[at] },
                ) && final(self).rows@[at].pending is Some && final(self).rows@[at].pending->0@
                    == accel@,
            *final(self) == (KeysView { rows: final(self).rows, ..*old(self) }),
    {
        match self.row_of(id) {
            Some(at) => {
                self.stage(at, accel.to_owned());
                assert(old(self).rows@[at as int].id@ == id@);
                true
            },
            None => false,
        }
    }

    /// Whether a key was typed for the row at `at` right after typing began.
    pub open spec fn typed_at_once(
        self,
        before: KeysView,
        at: int,
        key: u32,
        accel: Seq<char>,
        valid: bool,
    ) -> bool {
        exists|begun: KeysView, outcome: CaptureOutcome|
            {
                &&& begun.capture_begun(before, at)
                &&& #[trigger] self.captured(begun, at, key, accel, valid, outcome)
            }
    }

    /// Types a key for an action. Returns whether the key was taken and typing is over.
    pub fn probe_capture(&mut self, id: &str, key: u32, accel: &str, valid: bool) -> (taken: bool)
        requires
            old(self).well_formed(),
        ensures
            final(self).well_formed(),
            match place_of(old(self).rows@, id@) {
                None => !taken && *final(self) == *old(self),
                Some(at) => {
                    &&& taken == (key == ESCAPE || key == BACKSPACE || !(is_modifier(key) || key
                        == VOID_SYMBOL || accel@.len() == 0 || !valid))
                    &&& final(self).typed_at_once(*old(self), at, key, accel@, valid)
                },
            },
    {
        match self.row_of(id) {
            Some(at) => {
                proof {
                    lemma_place(self.rows@, id@, at as int);
                }
                self.begin_capture(at);
                let ghost begun = *self;
                let outcome = self.on_capture_key(key, accel, valid);
                assert(self.captured(begun, at as int, key, accel@, valid, outcome));
                assert(self.typed_at_once(*old(self), at as int, key, accel@, valid));
                self.capturing.is_none()
            },
            None => {
                proof {
                    lemma_no_row(self.rows@, id@);
                }
                false
            },
        }
    }

    /// The shortcut that an action has once the changes are saved.
    pub fn probe_accel(&self, id: &str) -> (accel: String)
        ensures
            accel@ == (match place_of(self.rows@, id@) {
                Some(at) => shown(self.rows@[at]),
                None => Seq::empty(),
            }),
    {
        match self.row_of(id) {
            Some(at) => {
                proof {
                    lemma_place(self.rows@, id@, at as int);
                }
                self.rows[at].resolved()
            },
            None => {
                proof {
                    lemma_no_row(self.rows@, id@);
                }
                String::new()
            },
        }
    }

    /// The note below an action, where it has one.
    pub fn probe_conflict_note(&self, id: &str) -> (note: Option<String>)
        ensures
            note == (match place_of(self.rows@, id@) {
                Some(at) => if self.rows@[at].note_visible {
                    Some(self.rows@[at].note)
                } else {
                    None
                },
                None => None,
            }),
    {
        match self.row_of(id) {
            Some(at) => {
                proof {
                    lemma_place(self.rows@, id@, at as int);
                }
                if self.rows[at].note_visible {
                    Some(self.rows[at].note.clone())
                } else {
                    None
                }
            },
            None => {
                proof {
                    lemma_no_row(self.rows@, id@);
                }
                None
            },
        }
    }

    pub fn probe_save_sensitive(&self) -> (sensitive: bool)
        ensures
            sensitive == self.save_sensitive,
    {
        self.save_sensitive
    }
}

fn conflicting(
    left: &(String, String, Option<(u32, u32)>),
    right: &(String, String, Option<(u32, u32)>),
) -> (answer: bool)
    ensures
        answer == (left.2 is Some && left.1@ == right.1@ && right.2 == left.2),
{
    match (left.2, right.2) {
        (Some((key, mods)), Some((other_key, other_mods))) => key == other_key && mods
            == other_mods && same_text(left.1.as_str(), right.1.as_str()),
        _ => false,
    }
}

/// A row has no rival exactly where no other row of its group has its shortcut, and
/// rivals are always mutual.
pub proof fn law_rivals_are_mutual(
    rows: Seq<(String, String, Option<(u32, u32)>)>,
    left: int,
    right: int,
    end: int,
)
    requires
        0 <= left < end <= rows.len(),
        0 <= right < end,
    ensures
        partners(rows, left, end).contains(right) <==> left != right && in_conflict(
            rows,
            left,
            right,
        ),
        partners(rows, left, end).contains(right) <==> partners(rows, right, end).contains(left),
{
    lemma_partners(rows, left, right, end);
    lemma_partners(rows, right, left, end);
}

proof fn lemma_partners(
    rows: Seq<(String, String, Option<(u32, u32)>)>,
    at: int,
    other: int,
    end: int,
)
    requires
        end <= rows.len(),
    ensures
        partners(rows, at, end).contains(other) <==> 0 <= other < end && other != at
            && in_conflict(rows, at, other),
    decreases end,
{
    if end > 0 {
        lemma_partners(rows, at, other, end - 1);
        let earlier = partners(rows, at, end - 1);
        let all = partners(rows, at, end);
        if end - 1 != at && in_conflict(rows, at, end - 1) {
            if all.contains(other) {
                let p = all.index_of(other);
                if p < earlier.len() {
                    assert(earlier[p] == other);
                }
            }
            if earlier.contains(other) {
                assert(all[earlier.index_of(other)] == other);
            }
            assert(all[earlier.len() as int] == end - 1);
        }
    }
}

} // verus!
