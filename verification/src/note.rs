//! The document model and the text-cursor state machine.
//!
//! A [`Note`] owns an ordered list of [`Statement`]s (one editable line of
//! text each) together with a cursor: a statement index paired with an
//! intra-statement position. [`Note::change_cursor`] interprets one discrete
//! edit action and is the only mutator of the document.
//!
//! Invariants maintained by every action (see [`NoteV::wf`]):
//! - the document always holds at least one statement;
//! - the cursor's statement index addresses a statement of the document;
//! - an in-text cursor offset addresses a character of its statement, so in
//!   particular the cursor on an empty statement is never "in text".

use vstd::prelude::*;

use crate::color::Rgba;

verus! {

/// The intra-statement position of the cursor.
#[derive(Clone, Copy, PartialEq, Eq, Structural, Debug)]
pub enum TextCursor {
    /// The cursor sits on the character at this offset.
    InText(usize),
    /// The cursor sits after the last character (the append position).
    End,
    /// No visible cursor (the statement is not focused).
    Hidden,
}

/// One discrete edit action, delivered by the embedding input loop.
#[derive(Clone, Copy, Debug)]
pub enum TextCursorAction {
    MoveLeft,
    MoveRight,
    /// Resolve a screen coordinate to an edit focus. Only selecting statement
    /// index 0 is implemented: the coordinate is ignored.
    Select(usize, usize),
    Unselect,
    AddCharacter(char),
    BackspaceCharacter,
    DeleteCharacter,
}

/// One logical line of editable text, plus the color it was last rendered in.
/// The text is kept as a sequence of characters so that cursor offsets are
/// character offsets, never byte offsets.
#[derive(Debug)]
pub struct Statement {
    pub text: Vec<char>,
    pub col: Rgba,
}

/// The mathematical model of a [`Statement`].
#[verifier::ext_equal]
pub struct StatementV {
    pub text: Seq<char>,
    pub col: Rgba,
}

impl View for Statement {
    type V = StatementV;

    open spec fn view(&self) -> StatementV {
        StatementV { text: self.text@, col: self.col }
    }
}

/// The mathematical model of the cursor's intra-statement position.
pub enum CurV {
    In(int),
    End,
    Hidden,
}

pub open spec fn cur_view(c: TextCursor) -> CurV {
    match c {
        TextCursor::InText(i) => CurV::In(i as int),
        TextCursor::End => CurV::End,
        TextCursor::Hidden => CurV::Hidden,
    }
}

/// The document with edit focus: the statement list and the cursor.
pub struct Note {
    pub statements: Vec<Statement>,
    /// Statement index, intra-statement position.
    pub text_cursor: (usize, TextCursor),
}

/// The mathematical model of a [`Note`].
#[verifier::ext_equal]
pub struct NoteV {
    pub statements: Seq<StatementV>,
    pub idx: int,
    pub cur: CurV,
}

impl View for Note {
    type V = NoteV;

    open spec fn view(&self) -> NoteV {
        NoteV {
            statements: self.statements@.map_values(|s: Statement| s@),
            idx: self.text_cursor.0 as int,
            cur: cur_view(self.text_cursor.1),
        }
    }
}

impl NoteV {
    /// The text of the statement the cursor addresses.
    pub open spec fn focused_text(self) -> Seq<char> {
        self.statements[self.idx].text
    }

    /// Well-formedness: the invariants of the document and cursor.
    pub open spec fn wf(self) -> bool {
        &&& self.statements.len() >= 1
        &&& 0 <= self.idx < self.statements.len()
        &&& (self.focused_text().len() == 0 ==> self.cur == CurV::End)
        &&& (self.cur matches CurV::In(i) ==> 0 <= i < self.focused_text().len())
    }
}

/// The edit phase of one action, before normalization: the transition table
/// of the cursor state machine, operating on the statement the cursor
/// addresses. Every (action, position) pair not listed is a no-op.
pub open spec fn spec_edit(n: NoteV, a: TextCursorAction) -> NoteV {
    let t = n.focused_text();
    let col = n.statements[n.idx].col;
    match (a, n.cur) {
        (TextCursorAction::MoveLeft, CurV::In(i)) => {
            if i > 0 {
                NoteV { cur: CurV::In(i - 1), ..n }
            } else {
                n
            }
        },
        (TextCursorAction::MoveLeft, CurV::End) => {
            if t.len() > 0 {
                NoteV { cur: CurV::In(t.len() - 1), ..n }
            } else {
                n
            }
        },
        (TextCursorAction::MoveRight, CurV::In(i)) => {
            if i + 1 < t.len() {
                NoteV { cur: CurV::In(i + 1), ..n }
            } else {
                NoteV { cur: CurV::End, ..n }
            }
        },
        (TextCursorAction::Select(_, _), _) => {
            // Only selecting statement index 0 is implemented. A carried-over
            // in-text offset that does not address a character of that
            // statement is normalized to the append position, so that no
            // out-of-range offset survives a change of statement.
            let sel = NoteV { idx: 0, ..n };
            match n.cur {
                CurV::In(i) => {
                    if i < sel.focused_text().len() {
                        sel
                    } else {
                        NoteV { cur: CurV::End, ..sel }
                    }
                },
                _ => sel,
            }
        },
        (TextCursorAction::Unselect, _) => NoteV { cur: CurV::Hidden, ..n },
        (TextCursorAction::AddCharacter(c), CurV::In(i)) => NoteV {
            statements: n.statements.update(n.idx, StatementV { text: t.insert(i, c), col }),
            ..n
        },
        (TextCursorAction::AddCharacter(c), CurV::End) => NoteV {
            statements: n.statements.update(n.idx, StatementV { text: t.push(c), col }),
            ..n
        },
        (TextCursorAction::BackspaceCharacter, CurV::In(i)) => {
            if i > 0 {
                NoteV {
                    statements: n.statements.update(
                        n.idx,
                        StatementV { text: t.remove(i - 1), col },
                    ),
                    cur: CurV::In(i - 1),
                    ..n
                }
            } else {
                n
            }
        },
        (TextCursorAction::BackspaceCharacter, CurV::End) => {
            if t.len() > 0 {
                NoteV {
                    statements: n.statements.update(
                        n.idx,
                        StatementV { text: t.drop_last(), col },
                    ),
                    ..n
                }
            } else {
                n
            }
        },
        (TextCursorAction::DeleteCharacter, CurV::In(i)) => {
            if i < t.len() {
                NoteV {
                    statements: n.statements.update(n.idx, StatementV { text: t.remove(i), col }),
                    cur: if i == t.len() - 1 {
                        CurV::End
                    } else {
                        CurV::In(i)
                    },
                    ..n
                }
            } else {
                n
            }
        },
        _ => n,
    }
}

/// The normalization that runs after every action, on the statement the
/// cursor then addresses. If that statement is empty: the cursor position
/// becomes the append position; if the document holds more than one
/// statement, the empty statement is deleted, a cursor index above the
/// vacated slot moves down by one, and a cursor left on a non-empty new
/// first statement is placed at its first character. A final re-check closes
/// the residual "in text at offset 0 of an empty statement" state.
pub open spec fn spec_normalize(n: NoteV) -> NoteV {
    let n1 = if n.focused_text().len() == 0 {
        if n.statements.len() > 1 {
            let doc = n.statements.remove(n.idx);
            if n.idx > 0 {
                NoteV { statements: doc, idx: n.idx - 1, cur: CurV::End }
            } else if doc[0].text.len() > 0 {
                NoteV { statements: doc, idx: n.idx, cur: CurV::In(0) }
            } else {
                NoteV { statements: doc, idx: n.idx, cur: CurV::End }
            }
        } else {
            NoteV { cur: CurV::End, ..n }
        }
    } else {
        n
    };
    if n1.cur == CurV::In(0) && n1.focused_text().len() == 0 {
        NoteV { cur: CurV::End, ..n1 }
    } else {
        n1
    }
}

/// One full step of the state machine: the action, then normalization.
pub open spec fn spec_step(n: NoteV, a: TextCursorAction) -> NoteV {
    spec_normalize(spec_edit(n, a))
}

/// A step on a well-formed document yields a well-formed document: the
/// document keeps at least one statement, the cursor index stays in range,
/// and an in-text cursor keeps addressing a character (so the cursor on an
/// empty statement is at the append position).
pub proof fn lemma_step_wf(n: NoteV, a: TextCursorAction)
    requires
        n.wf(),
    ensures
        spec_step(n, a).wf(),
{
}

/// The document reached by folding a sequence of edit actions over `n`.
pub open spec fn apply_actions(n: NoteV, acts: Seq<TextCursorAction>) -> NoteV
    decreases acts.len(),
{
    if acts.len() == 0 {
        n
    } else {
        apply_actions(spec_step(n, acts[0]), acts.drop_first())
    }
}

/// After any sequence of edit actions on a well-formed document, the
/// document is still well-formed: it holds at least one statement, the
/// cursor's statement index addresses a statement, and the cursor of an
/// empty statement is at the append position, never in text.
pub proof fn lemma_actions_preserve_wf(n: NoteV, acts: Seq<TextCursorAction>)
    requires
        n.wf(),
    ensures
        apply_actions(n, acts).wf(),
    decreases acts.len(),
{
    if acts.len() > 0 {
        lemma_step_wf(n, acts[0]);
        lemma_actions_preserve_wf(spec_step(n, acts[0]), acts.drop_first());
    }
}

/// Applying `unselect` twice is the same as applying it once, provided the
/// focused statement is non-empty or the document is a single statement.
/// (When `unselect` lands on an empty statement of a larger document, the
/// normalization pass deletes that statement and may re-place a visible
/// cursor, which a second `unselect` then hides: on such inputs the two are
/// not equivalent.)
pub proof fn lemma_unselect_idempotent(n: NoteV)
    requires
        n.wf(),
        n.focused_text().len() > 0 || n.statements.len() == 1,
    ensures
        spec_step(spec_step(n, TextCursorAction::Unselect), TextCursorAction::Unselect)
            == spec_step(n, TextCursorAction::Unselect),
{
    let n1 = spec_step(n, TextCursorAction::Unselect);
    let n2 = spec_step(n1, TextCursorAction::Unselect);
    assert(n2 =~~= n1);
}

/// Round trip: inserting a character at the append position and immediately
/// applying backspace restores the document exactly, provided the focused
/// statement is non-empty or the document is a single statement. (When the
/// focused statement of a larger document was empty, the backspace empties
/// it again and the normalization pass deletes it.)
pub proof fn lemma_add_backspace_round_trip(n: NoteV, c: char)
    requires
        n.wf(),
        n.cur == CurV::End,
        n.focused_text().len() > 0 || n.statements.len() == 1,
    ensures
        spec_step(
            spec_step(n, TextCursorAction::AddCharacter(c)),
            TextCursorAction::BackspaceCharacter,
        ) == n,
{
    let n1 = spec_step(n, TextCursorAction::AddCharacter(c));
    let n2 = spec_step(n1, TextCursorAction::BackspaceCharacter);
    assert(n.focused_text().push(c).drop_last() =~= n.focused_text());
    assert(n2 =~~= n);
}

impl Statement {
    /// A fresh, empty statement, to be rendered in the ordinary text color.
    pub fn new() -> (s: Statement)
        ensures
            s@.text == Seq::<char>::empty(),
            s@.col == crate::color::white(),
    {
        Statement { text: Vec::new(), col: Rgba::white() }
    }

    pub fn is_empty(&self) -> (r: bool)
        ensures
            r == (self@.text.len() == 0),
    {
        self.text.len() == 0
    }
}

impl Note {
    /// A fresh document: one empty statement, cursor at its append position.
    pub fn new() -> (n: Note)
        ensures
            n@.statements.len() == 1,
            n@.statements[0].text == Seq::<char>::empty(),
            n@.statements[0].col == crate::color::white(),
            n@.idx == 0,
            n@.cur == CurV::End,
            n@.wf(),
    {
        let mut statements: Vec<Statement> = Vec::new();
        statements.push(Statement::new());
        Note { statements, text_cursor: (0, TextCursor::End) }
    }

    /// Apply one edit action to the document and cursor, per the transition
    /// table of [`spec_edit`], then normalize per [`spec_normalize`].
    pub fn change_cursor(&mut self, action: TextCursorAction)
        requires
            old(self)@.wf(),
        ensures
            final(self)@ == spec_step(old(self)@, action),
            final(self)@.wf(),
    {
        let idx = self.text_cursor.0;
        match (action, self.text_cursor.1) {
            (TextCursorAction::MoveLeft, TextCursor::InText(i)) => {
                if i > 0 {
                    self.text_cursor.1 = TextCursor::InText(i - 1);
                }
            },
            (TextCursorAction::MoveLeft, TextCursor::End) => {
                let l = self.statements[idx].text.len();
                if l > 0 {
                    self.text_cursor.1 = TextCursor::InText(l - 1);
                }
            },
            (TextCursorAction::MoveRight, TextCursor::InText(i)) => {
                let l = self.statements[idx].text.len();
                assert(i < l);
                if i + 1 < l {
                    self.text_cursor.1 = TextCursor::InText(i + 1);
                } else {
                    self.text_cursor.1 = TextCursor::End;
                }
            },
            (TextCursorAction::Select(_, _), _) => {
                self.text_cursor.0 = 0;
                if let TextCursor::InText(i) = self.text_cursor.1 {
                    if i >= self.statements[0].text.len() {
                        self.text_cursor.1 = TextCursor::End;
                    }
                }
            },
            (TextCursorAction::Unselect, _) => {
                self.text_cursor.1 = TextCursor::Hidden;
            },
            (TextCursorAction::AddCharacter(c), TextCursor::InText(i)) => {
                self.statements[idx].text.insert(i, c);
            },
            (TextCursorAction::AddCharacter(c), TextCursor::End) => {
                self.statements[idx].text.push(c);
            },
            (TextCursorAction::BackspaceCharacter, TextCursor::InText(i)) => {
                if i > 0 {
                    self.statements[idx].text.remove(i - 1);
                    self.text_cursor.1 = TextCursor::InText(i - 1);
                }
            },
            (TextCursorAction::BackspaceCharacter, TextCursor::End) => {
                let l = self.statements[idx].text.len();
                if l > 0 {
                    self.statements[idx].text.remove(l - 1);
                }
            },
            (TextCursorAction::DeleteCharacter, TextCursor::InText(i)) => {
                if i < self.statements[idx].text.len() {
                    self.statements[idx].text.remove(i);
                    if i == self.statements[idx].text.len() {
                        self.text_cursor.1 = TextCursor::End;
                    }
                }
            },
            _ => {},
        }
        assert(self@ =~~= spec_edit(old(self)@, action));
        let ghost edited = self@;

        // Normalization: runs after every action, on the statement the
        // cursor now addresses.
        let cur_idx = self.text_cursor.0;
        if self.statements[cur_idx].text.len() == 0 {
            self.text_cursor.1 = TextCursor::End;
            if self.statements.len() > 1 {
                self.statements.remove(cur_idx);
                if cur_idx > 0 {
                    self.text_cursor.0 = cur_idx - 1;
                } else if self.statements[0].text.len() > 0 {
                    self.text_cursor.1 = TextCursor::InText(0);
                }
            }
        }
        let cur_idx2 = self.text_cursor.0;
        if self.text_cursor.1 == TextCursor::InText(0) && self.statements[cur_idx2].text.len() == 0
        {
            self.text_cursor.1 = TextCursor::End;
        }
        assert(self@ =~~= spec_normalize(edited));
        proof {
            lemma_step_wf(old(self)@, action);
        }
    }
}

} // verus!
