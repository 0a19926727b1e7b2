//! The multi-line field editor, backed by `tui_textarea::TextArea`.

use vstd::prelude::*;
use crate::keys::KeyInput;
use tui_textarea::{CursorMove, TextArea};

verus! {

/// A field being edited: a `tui_textarea::TextArea`, held opaquely. Its text
/// is named by [`editor_lines`] and its cursor by [`editor_cursor`].
#[verifier::external_body]
pub struct Editor {
    pub area: TextArea<'static>,
}

/// The lines of text an editor holds (`TextArea::lines`).
pub uninterp spec fn editor_lines(e: Editor) -> Seq<Seq<char>>;

/// The cursor of an editor (`TextArea::cursor`): its row, and its column
/// counted in characters.
pub uninterp spec fn editor_cursor(e: Editor) -> (int, int);

/// The place the cursor goes to on a move to `to` from `cursor` in `lines`
/// (`CursorMove::next_cursor`): the last line, with the column kept where
/// the line is long enough and at its end otherwise; or the end of the
/// cursor's line.
pub open spec fn moved_cursor(lines: Seq<Seq<char>>, cursor: (int, int), to: CursorTarget) -> (int, int) {
    match to {
        CursorTarget::Bottom => {
            let row = lines.len() - 1;
            let len = lines[row].len() as int;
            (row, if cursor.1 < len { cursor.1 } else { len })
        },
        CursorTarget::End => (cursor.0, lines[cursor.0].len() as int),
    }
}

/// The editor after `TextArea::input` of the key press `key` on `e`, and
/// whether that changed its text: a function of the editor (text, cursor,
/// selection, undo history, yanked text) and the key alone.
pub uninterp spec fn typed(e: Editor, key: KeyInput) -> (Editor, bool);

/// Where to move the editor's cursor.
pub enum CursorTarget {
    /// The last line.
    Bottom,
    /// The end of the current line.
    End,
}

/// The lines a new editor holds: the given ones, or one empty line when none
/// are given.
pub open spec fn initial_lines(lines: Seq<String>) -> Seq<Seq<char>> {
    if lines.len() == 0 {
        seq![Seq::<char>::empty()]
    } else {
        lines.map_values(|s: String| s@)
    }
}

impl Editor {
    /// `TextArea::new`: an editor holding `lines`, or a single empty line when
    /// `lines` is empty, with the cursor at the start.
    #[verifier::external_body]
    pub(crate) fn new(lines: Vec<String>) -> (e: Editor)
        ensures
            editor_lines(e) == initial_lines(lines@),
            editor_cursor(e) == (0int, 0int),
    {
        Editor { area: TextArea::new(lines) }
    }

    /// `TextArea::move_cursor`: moves the cursor (see [`moved_cursor`]); the
    /// text is unchanged.
    #[verifier::external_body]
    pub(crate) fn move_cursor(&mut self, to: CursorTarget)
        ensures
            editor_lines(*final(self)) == editor_lines(*old(self)),
            editor_cursor(*final(self)) == moved_cursor(editor_lines(*old(self)), editor_cursor(*old(self)), to),
    {
        let m = match to {
            CursorTarget::Bottom => CursorMove::Bottom,
            CursorTarget::End => CursorMove::End,
        };
        self.area.move_cursor(m)
    }

    /// `TextArea::into_lines`: the text, one string per line.
    #[verifier::external_body]
    pub(crate) fn into_lines(self) -> (v: Vec<String>)
        ensures
            v@.map_values(|s: String| s@) == editor_lines(self),
    {
        self.area.into_lines()
    }

    /// `TextArea::input`: applies the key press with the editor's default key
    /// bindings (typing, deleting, moving, newline, ...); the editor after it
    /// and whether the text changed are [`typed`] of the editor and the key.
    #[verifier::external_body]
    pub(crate) fn input(&mut self, key: &KeyInput) -> (r: bool)
        ensures
            (*final(self), r) == typed(*old(self), *key),
    {
        self.area.input(key.raw.clone())
    }
}

} // verus!
