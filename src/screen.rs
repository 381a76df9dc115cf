use vstd::prelude::*;

verus! {

/// Glyph that marks the cursor position in a rendered line.
pub const CURSOR_MARKER: char = '|';

/// Abstract state of a single-line buffer: the text and a gap cursor that
/// sits between characters, `0` being before the first one.
pub struct BufferState {
    pub content: Seq<char>,
    pub cursor: nat,
}

impl BufferState {
    /// The cursor never leaves `[0, len(content)]`.
    pub open spec fn wf(self) -> bool {
        self.cursor <= self.content.len()
    }

    /// A freshly created buffer: no text, cursor at the start.
    pub open spec fn empty() -> BufferState {
        BufferState { content: Seq::empty(), cursor: 0 }
    }

    /// One step left, stopping at the start.
    pub open spec fn moved_left(self) -> BufferState {
        BufferState {
            content: self.content,
            cursor: if self.cursor > 0 { (self.cursor - 1) as nat } else { 0 },
        }
    }

    /// One step right, stopping at the end.
    pub open spec fn moved_right(self) -> BufferState {
        BufferState {
            content: self.content,
            cursor: if self.cursor < self.content.len() { self.cursor + 1 } else { self.cursor },
        }
    }

    /// `ch` goes into the gap and the cursor lands just after it.
    pub open spec fn inserted(self, ch: char) -> BufferState {
        BufferState { content: self.content.insert(self.cursor as int, ch), cursor: self.cursor + 1 }
    }

    /// The character before the gap goes away; nothing happens at the start.
    pub open spec fn deleted_backward(self) -> BufferState {
        if self.cursor == 0 {
            self
        } else {
            BufferState {
                content: self.content.remove(self.cursor - 1),
                cursor: (self.cursor - 1) as nat,
            }
        }
    }

    /// `n` steps left in a row.
    pub open spec fn moved_left_times(self, n: nat) -> BufferState
        decreases n,
    {
        if n == 0 {
            self
        } else {
            self.moved_left().moved_left_times((n - 1) as nat)
        }
    }

    /// `n` steps right in a row.
    pub open spec fn moved_right_times(self, n: nat) -> BufferState
        decreases n,
    {
        if n == 0 {
            self
        } else {
            self.moved_right().moved_right_times((n - 1) as nat)
        }
    }

    /// The text with the marker standing in the gap.
    pub open spec fn rendered(self) -> Seq<char> {
        self.content.take(self.cursor as int) + seq![CURSOR_MARKER] + self.content.skip(
            self.cursor as int,
        )
    }
}

/// Every operation keeps the cursor within `[0, len(content)]`, starting from
/// the empty buffer, so every reachable state satisfies the bound.
pub proof fn lemma_cursor_stays_in_bounds(s: BufferState, ch: char)
    requires
        s.wf(),
    ensures
        BufferState::empty().wf(),
        s.moved_left().wf(),
        s.moved_right().wf(),
        s.inserted(ch).wf(),
        s.deleted_backward().wf(),
{
}

/// Inserting a character and then deleting backward gives back the state
/// from before the insertion.
pub proof fn lemma_insert_then_delete_backward(s: BufferState, ch: char)
    requires
        s.wf(),
    ensures
        s.inserted(ch).deleted_backward() == s,
{
    assert(s.content.insert(s.cursor as int, ch).remove(s.cursor as int) =~= s.content);
}

/// Moving left `n` times lowers the cursor by `n` down to `0` and leaves the
/// text alone; once at `0`, a further move left changes nothing.
pub proof fn lemma_move_left_saturates(s: BufferState, n: nat)
    requires
        s.wf(),
    ensures
        s.moved_left_times(n).content == s.content,
        s.moved_left_times(n).cursor == if n >= s.cursor { 0 } else { (s.cursor - n) as nat },
        n >= s.cursor ==> s.moved_left_times(n).moved_left() == s.moved_left_times(n),
    decreases n,
{
    if n > 0 {
        lemma_move_left_saturates(s.moved_left(), (n - 1) as nat);
    }
}

/// Moving right `n` times raises the cursor by `n` up to `len(content)` and
/// leaves the text alone; once at the end, a further move right changes nothing.
pub proof fn lemma_move_right_saturates(s: BufferState, n: nat)
    requires
        s.wf(),
    ensures
        s.moved_right_times(n).content == s.content,
        s.moved_right_times(n).cursor == if s.cursor + n >= s.content.len() {
            s.content.len()
        } else {
            s.cursor + n
        },
        s.cursor + n >= s.content.len() ==> s.moved_right_times(n).moved_right()
            == s.moved_right_times(n),
    decreases n,
{
    if n > 0 {
        lemma_move_right_saturates(s.moved_right(), (n - 1) as nat);
    }
}

/// On the empty buffer, moving left, moving right and deleting backward all
/// leave the state as it is.
pub proof fn lemma_empty_buffer_is_fixed()
    ensures
        BufferState::empty().moved_left() == BufferState::empty(),
        BufferState::empty().moved_right() == BufferState::empty(),
        BufferState::empty().deleted_backward() == BufferState::empty(),
{
}

/// Relies on String::push: appends one character at the end of the string.
#[verifier::external_body]
fn push_char(s: &mut String, c: char)
    ensures
        final(s)@ == old(s)@.push(c),
{
    s.push(c);
}

/// An editable line of text with an insertion cursor.
pub struct Screen {
    text: Vec<char>,
    pos: usize,
}

impl View for Screen {
    type V = BufferState;

    closed spec fn view(&self) -> BufferState {
        BufferState { content: self.text@, cursor: self.pos as nat }
    }
}

impl Screen {
    /// An empty buffer with the cursor at the start.
    pub fn new() -> (r: Screen)
        ensures
            r@ == BufferState::empty(),
            r@.wf(),
    {
        Screen { text: Vec::new(), pos: 0 }
    }

    /// Moves the cursor one character to the left; a no-op at the start.
    pub fn left(&mut self)
        requires
            old(self)@.wf(),
        ensures
            final(self)@ == old(self)@.moved_left(),
            final(self)@.wf(),
    {
        if self.pos > 0 {
            self.pos = self.pos - 1;
        }
    }

    /// Moves the cursor one character to the right; a no-op at the end.
    pub fn right(&mut self)
        requires
            old(self)@.wf(),
        ensures
            final(self)@ == old(self)@.moved_right(),
            final(self)@.wf(),
    {
        if self.pos < self.text.len() {
            self.pos = self.pos + 1;
        }
    }

    /// Inserts `c` at the cursor and moves the cursor past it.
    pub fn insert(&mut self, c: char)
        requires
            old(self)@.wf(),
            old(self)@.content.len() < usize::MAX,
        ensures
            final(self)@ == old(self)@.inserted(c),
            final(self)@.wf(),
    {
        self.text.insert(self.pos, c);
        self.pos = self.pos + 1;
    }

    /// Deletes the character before the cursor; a no-op at the start.
    pub fn remove(&mut self)
        requires
            old(self)@.wf(),
        ensures
            final(self)@ == old(self)@.deleted_backward(),
            final(self)@.wf(),
    {
        if self.pos > 0 {
            self.text.remove(self.pos - 1);
            self.pos = self.pos - 1;
        }
    }

    /// The characters of the buffer, in order.
    pub fn text(&self) -> (r: &Vec<char>)
        ensures
            r@ == self@.content,
    {
        &self.text
    }

    /// The cursor: how many characters stand before it.
    pub fn pos(&self) -> (r: usize)
        ensures
            r == self@.cursor,
    {
        self.pos
    }

    /// The text with the cursor marker standing between the characters
    /// before and after the cursor; an empty buffer gives the marker alone.
    pub fn pretty(&self) -> (r: String)
        requires
            self@.wf(),
        ensures
            r@ == self@.rendered(),
    {
        let mut out = String::new();
        let mut i: usize = 0;
        while i < self.pos
            invariant
                self@.wf(),
                i <= self.pos,
                out@ == self.text@.take(i as int),
            decreases self.pos - i,
        {
            push_char(&mut out, self.text[i]);
            i = i + 1;
        }
        push_char(&mut out, CURSOR_MARKER);
        while i < self.text.len()
            invariant
                self@.wf(),
                self.pos <= i <= self.text.len(),
                out@ == self.text@.take(self.pos as int) + seq![CURSOR_MARKER]
                    + self.text@.subrange(self.pos as int, i as int),
            decreases self.text.len() - i,
        {
            push_char(&mut out, self.text[i]);
            i = i + 1;
        }
        assert(self.text@.subrange(self.pos as int, i as int) =~= self.text@.skip(self.pos as int));
        out
    }
}

} // verus!
