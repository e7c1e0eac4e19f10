use vstd::prelude::*;

use crate::key::Key;

verus! {

/// What a key does to a line of text and its cursor, the pair `(text, cursor)`.
pub open spec fn edit(text: Seq<char>, cursor: nat, key: Key) -> (Seq<char>, nat) {
    match key {
        Key::Char(c) => (text.insert(cursor as int, c), cursor + 1),
        Key::Backspace => if cursor > 0 {
            (text.remove(cursor - 1), (cursor - 1) as nat)
        } else {
            (text, cursor)
        },
        Key::Delete => if cursor < text.len() {
            (text.remove(cursor as int), cursor)
        } else {
            (text, cursor)
        },
        Key::MoveLeft => if cursor > 0 {
            (text, (cursor - 1) as nat)
        } else {
            (text, cursor)
        },
        Key::MoveRight => if cursor < text.len() {
            (text, cursor + 1)
        } else {
            (text, cursor)
        },
        Key::MoveHome => (text, 0),
        Key::MoveEnd => (text, text.len()),
        Key::Submit | Key::Cancel => (text, cursor),
    }
}

/// What a sequence of keys does to a line, one key after the other.
pub open spec fn edit_all(text: Seq<char>, cursor: nat, keys: Seq<Key>) -> (Seq<char>, nat)
    decreases keys.len(),
{
    if keys.len() == 0 {
        (text, cursor)
    } else {
        let (t, c) = edit_all(text, cursor, keys.drop_last());
        edit(t, c, keys.last())
    }
}

/// Every key keeps the cursor within the text.
pub proof fn lemma_edit_keeps_cursor_in_bounds(text: Seq<char>, cursor: nat, key: Key)
    requires
        cursor <= text.len(),
    ensures
        edit(text, cursor, key).1 <= edit(text, cursor, key).0.len(),
{
}

/// After any sequence of keys the cursor is still within the text.
pub proof fn lemma_edits_keep_cursor_in_bounds(text: Seq<char>, cursor: nat, keys: Seq<Key>)
    requires
        cursor <= text.len(),
    ensures
        edit_all(text, cursor, keys).1 <= edit_all(text, cursor, keys).0.len(),
    decreases keys.len(),
{
    if keys.len() > 0 {
        lemma_edits_keep_cursor_in_bounds(text, cursor, keys.drop_last());
        let (t, c) = edit_all(text, cursor, keys.drop_last());
        lemma_edit_keeps_cursor_in_bounds(t, c, keys.last());
    }
}

/// Relies on std's `FromIterator<&char>` for `String`: the chars in order.
#[verifier::external_body]
fn collect_chars(chars: &Vec<char>) -> (r: String)
    ensures
        r@ == chars@,
{
    chars.iter().collect()
}

/// An editable line of text with a cursor and an optional placeholder.
#[derive(Debug)]
pub struct Input {
    content: Vec<char>,
    cursor: usize,
    placeholder: Option<String>,
}

impl Input {
    /// The characters typed so far.
    pub closed spec fn text(&self) -> Seq<char> {
        self.content@
    }

    /// The cursor, an index into the text from `0` to its length.
    pub closed spec fn pos(&self) -> nat {
        self.cursor as nat
    }

    /// The hint shown while the text is empty; never part of the text.
    pub closed spec fn hint(&self) -> Option<Seq<char>> {
        match self.placeholder {
            Some(p) => Some(p@),
            None => None,
        }
    }

    pub open spec fn wf(&self) -> bool {
        self.pos() <= self.text().len()
    }

    pub fn new() -> (r: Input)
        ensures
            r.wf(),
            r.text() == Seq::<char>::empty(),
            r.pos() == 0,
            r.hint() is None,
    {
        Input { content: Vec::new(), cursor: 0, placeholder: None }
    }

    pub fn with_placeholder(self, placeholder: &str) -> (r: Input)
        requires
            self.wf(),
        ensures
            r.wf(),
            r.text() == self.text(),
            r.pos() == self.pos(),
            r.hint() == Some(placeholder@),
    {
        Input { placeholder: Some(placeholder.to_owned()), ..self }
    }

    /// The text as a string; the placeholder is never part of it.
    pub fn content(&self) -> (r: String)
        ensures
            r@ == self.text(),
    {
        collect_chars(&self.content)
    }

    pub fn is_empty(&self) -> (r: bool)
        ensures
            r == (self.text().len() == 0),
    {
        self.content.len() == 0
    }

    pub fn cursor(&self) -> (r: usize)
        ensures
            r == self.pos(),
    {
        self.cursor
    }

    pub fn placeholder(&self) -> (r: Option<&str>)
        ensures
            match r {
                Some(p) => self.hint() == Some(p@),
                None => self.hint() is None,
            },
    {
        match &self.placeholder {
            Some(p) => Some(p.as_str()),
            None => None,
        }
    }

    pub fn insert(&mut self, c: char)
        requires
            old(self).wf(),
        ensures
            final(self).wf(),
            (final(self).text(), final(self).pos()) == edit(old(self).text(), old(self).pos(), Key::Char(c)),
            final(self).hint() == old(self).hint(),
    {
        self.content.insert(self.cursor, c);
        assert(self.cursor < self.content.len());
        self.cursor = self.cursor + 1;
    }

    pub fn backspace(&mut self)
        requires
            old(self).wf(),
        ensures
            final(self).wf(),
            (final(self).text(), final(self).pos()) == edit(old(self).text(), old(self).pos(), Key::Backspace),
            final(self).hint() == old(self).hint(),
    {
        if self.cursor > 0 {
            self.cursor = self.cursor - 1;
            self.content.remove(self.cursor);
        }
    }

    pub fn delete(&mut self)
        requires
            old(self).wf(),
        ensures
            final(self).wf(),
            (final(self).text(), final(self).pos()) == edit(old(self).text(), old(self).pos(), Key::Delete),
            final(self).hint() == old(self).hint(),
    {
        if self.cursor < self.content.len() {
            self.content.remove(self.cursor);
        }
    }

    pub fn move_left(&mut self)
        requires
            old(self).wf(),
        ensures
            final(self).wf(),
            (final(self).text(), final(self).pos()) == edit(old(self).text(), old(self).pos(), Key::MoveLeft),
            final(self).hint() == old(self).hint(),
    {
        if self.cursor > 0 {
            self.cursor = self.cursor - 1;
        }
    }

    pub fn move_right(&mut self)
        requires
            old(self).wf(),
        ensures
            final(self).wf(),
            (final(self).text(), final(self).pos()) == edit(old(self).text(), old(self).pos(), Key::MoveRight),
            final(self).hint() == old(self).hint(),
    {
        if self.cursor < self.content.len() {
            self.cursor = self.cursor + 1;
        }
    }

    pub fn move_to_start(&mut self)
        requires
            old(self).wf(),
        ensures
            final(self).wf(),
            (final(self).text(), final(self).pos()) == edit(old(self).text(), old(self).pos(), Key::MoveHome),
            final(self).hint() == old(self).hint(),
    {
        self.cursor = 0;
    }

    pub fn move_to_end(&mut self)
        requires
            old(self).wf(),
        ensures
            final(self).wf(),
            (final(self).text(), final(self).pos()) == edit(old(self).text(), old(self).pos(), Key::MoveEnd),
            final(self).hint() == old(self).hint(),
    {
        self.cursor = self.content.len();
    }

    /// Empties the text and puts the cursor at `0`; the placeholder stays.
    pub fn clear(&mut self)
        ensures
            final(self).wf(),
            final(self).text() == Seq::<char>::empty(),
            final(self).pos() == 0,
            final(self).hint() == old(self).hint(),
    {
        self.content.clear();
        self.cursor = 0;
    }

    /// Applies the edit that a key stands for; `Submit` and `Cancel` change nothing.
    pub fn handle_key(&mut self, key: Key)
        requires
            old(self).wf(),
        ensures
            final(self).wf(),
            (final(self).text(), final(self).pos()) == edit(old(self).text(), old(self).pos(), key),
            final(self).hint() == old(self).hint(),
    {
        match key {
            Key::Char(c) => self.insert(c),
            Key::Backspace => self.backspace(),
            Key::Delete => self.delete(),
            Key::MoveLeft => self.move_left(),
            Key::MoveRight => self.move_right(),
            Key::MoveHome => self.move_to_start(),
            Key::MoveEnd => self.move_to_end(),
            Key::Submit | Key::Cancel => {},
        }
    }
}

} // verus!
