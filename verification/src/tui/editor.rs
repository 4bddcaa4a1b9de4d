use crate::text::{graphemes_of, well_segmented, grapheme_count, grapheme_len, grapheme_start, grapheme_starts, chars_of, string_of, splice_chars, lemma_grapheme_start_mono, char_len, cluster_at, grapheme_end_spec, grapheme_index_end, grapheme_index_str, slice_chars};
use vstd::prelude::*;

verus! {

/// Which end of a selection the cursor sits on.
#[derive(Debug, Clone, Copy, PartialEq, Eq, Structural)]
pub enum Direction {
    Left,
    Right,
}

/// How a piece of the editor's line is shown: as it is, in reverse video
/// (the cursor), or highlighted as selected.
#[derive(Debug, Clone, Copy, PartialEq, Eq, Structural)]
pub enum SpanStyle {
    Plain,
    Reversed,
    Selected,
}

/// Cursor of the editor, counted in grapheme clusters.
///
/// |what | | | | | | |
/// |-----|-|-|-|-|-|-|
/// |str  |H|e|l|l|o| |
/// |index|0|1|2|3|4|5|
///
/// A selection `(begin, end)` covers the clusters `begin..=end`: `'He'` is
/// `(0, 1)`, and `'Hello'` is `(0, 4)` or `(0, 5)`.
#[derive(Debug, Clone, Copy, PartialEq, Eq, Structural)]
pub enum Cursor {
    Normal { index: usize },
    Select { begin: usize, end: usize, direction: Direction },
}

/// A single-line text editor working on grapheme clusters.
#[derive(Debug)]
pub struct Editor {
    text: String,
    cursor: Cursor,
    /// character offset right after the last inserted character; it is
    /// forgotten whenever the cursor is moved
    insert_at: Option<usize>,
}

/// What an editor holds: its text, its cursor, and where the next character
/// typed goes when it is remembered.
pub struct EditorView {
    pub text: Seq<char>,
    pub cursor: Cursor,
    pub insert_at: Option<usize>,
}

impl View for Editor {
    type V = EditorView;

    closed spec fn view(&self) -> EditorView {
        EditorView { text: self.text@, cursor: self.cursor, insert_at: self.insert_at }
    }
}

/// A selection never ends before it begins.
pub open spec fn cursor_ok(c: Cursor) -> bool {
    c matches Cursor::Select { begin, end, .. } ==> begin <= end
}

pub open spec fn flip(d: Direction) -> Direction {
    match d {
        Direction::Left => Direction::Right,
        Direction::Right => Direction::Left,
    }
}

pub open spec fn with_cursor(v: EditorView, c: Cursor) -> EditorView {
    EditorView { text: v.text, cursor: c, insert_at: v.insert_at }
}

pub open spec fn moved(v: EditorView, c: Cursor) -> EditorView {
    EditorView { text: v.text, cursor: c, insert_at: None }
}

/// The editor after the right arrow key.
pub open spec fn right_arrow_spec(v: EditorView) -> EditorView {
    let n = grapheme_count(v.text);
    match v.cursor {
        Cursor::Normal { index } => if index + 1 <= n {
            moved(v, Cursor::Normal { index: (index + 1) as usize })
        } else {
            v
        },
        Cursor::Select { begin, end, .. } => if begin == end && end + 1 <= n {
            with_cursor(v, Cursor::Normal { index: (end + 1) as usize })
        } else {
            with_cursor(v, Cursor::Normal { index: end })
        },
    }
}

/// The editor after the left arrow key.
pub open spec fn left_arrow_spec(v: EditorView) -> EditorView {
    match v.cursor {
        Cursor::Normal { index } => if index > 0 {
            moved(v, Cursor::Normal { index: (index - 1) as usize })
        } else {
            v
        },
        Cursor::Select { begin, end, .. } => if begin == end && begin > 0 {
            with_cursor(v, Cursor::Normal { index: (begin - 1) as usize })
        } else {
            with_cursor(v, Cursor::Normal { index: begin })
        },
    }
}

/// A selection whose ends crossed is turned around.
pub open spec fn ordered_selection(begin: int, end: int, d: Direction) -> Cursor {
    if begin > end {
        Cursor::Select { begin: end as usize, end: begin as usize, direction: flip(d) }
    } else {
        Cursor::Select { begin: begin as usize, end: end as usize, direction: d }
    }
}

/// The editor after shift and the right arrow key.
pub open spec fn right_arrow_shift_spec(v: EditorView) -> EditorView {
    let n = grapheme_count(v.text);
    match v.cursor {
        Cursor::Normal { index } => if index + 1 <= n {
            moved(v, Cursor::Select { begin: index, end: (index + 1) as usize, direction: Direction::Right })
        } else {
            v
        },
        Cursor::Select { begin, end, direction } => match direction {
            Direction::Left => {
                let b = if begin + 1 <= n { begin + 1 } else { begin as int };
                with_cursor(v, ordered_selection(b, end as int, direction))
            },
            Direction::Right => {
                let e = if end + 1 <= n { end + 1 } else { end as int };
                with_cursor(v, ordered_selection(begin as int, e, direction))
            },
        },
    }
}

/// The editor after shift and the left arrow key.
pub open spec fn left_arrow_shift_spec(v: EditorView) -> EditorView {
    match v.cursor {
        Cursor::Normal { index } => if index > 0 {
            moved(v, Cursor::Select { begin: (index - 1) as usize, end: index, direction: Direction::Left })
        } else {
            v
        },
        Cursor::Select { begin, end, direction } => match direction {
            Direction::Left => {
                let b = if begin > 0 { begin - 1 } else { begin as int };
                with_cursor(v, ordered_selection(b, end as int, direction))
            },
            Direction::Right => {
                let e = if end > 0 { end - 1 } else { end as int };
                with_cursor(v, ordered_selection(begin as int, e, direction))
            },
        },
    }
}

/// The editor after select-all.
pub open spec fn select_all_spec(v: EditorView) -> EditorView {
    if v.text.len() == 0 {
        v
    } else {
        moved(v, Cursor::Select { begin: 0, end: grapheme_count(v.text) as usize, direction: Direction::Right })
    }
}

/// The editor after backspace: the cluster before the cursor goes, or the
/// selected clusters `begin..=end`.
pub open spec fn backspace_spec(v: EditorView) -> EditorView {
    let t = v.text;
    if t.len() == 0 {
        v
    } else {
        match v.cursor {
            Cursor::Normal { index } => if index == 0 {
                v
            } else {
                let from = grapheme_start(t, index - 1);
                let to = grapheme_start(t, index as int);
                EditorView {
                    text: t.take(from) + t.skip(to),
                    cursor: Cursor::Normal { index: (index - 1) as usize },
                    insert_at: None,
                }
            },
            Cursor::Select { begin, end, .. } => {
                let from = grapheme_start(t, begin as int);
                let to = grapheme_start(t, end + 1);
                EditorView {
                    text: t.take(from) + t.skip(to),
                    cursor: Cursor::Normal { index: begin },
                    insert_at: v.insert_at,
                }
            },
        }
    }
}

/// A remembered insertion point lies within the text.
pub open spec fn insert_ready(v: EditorView) -> bool {
    v.cursor is Normal && v.insert_at is Some ==> v.insert_at->0 <= v.text.len()
}

/// The editor after typing `ch`.
pub open spec fn insert_spec(v: EditorView, ch: char) -> EditorView {
    let t = v.text;
    match v.cursor {
        Cursor::Normal { index } => {
            let at = match v.insert_at {
                Some(i) => i as int,
                None => grapheme_start(t, index as int),
            };
            let t1 = t.take(at) + seq![ch] + t.skip(at);
            EditorView {
                text: t1,
                cursor: Cursor::Normal { index: grapheme_count(t1.take(at + 1)) as usize },
                insert_at: Some((at + 1) as usize),
            }
        },
        Cursor::Select { begin, end, .. } => {
            let from = grapheme_start(t, begin as int);
            let to = grapheme_start(t, end + 1);
            let t1 = t.take(from) + seq![ch] + t.skip(to);
            let g = grapheme_count(t1.take(from + 1));
            if g == begin {
                EditorView { text: t1, cursor: v.cursor, insert_at: Some((from + 1) as usize) }
            } else {
                EditorView { text: t1, cursor: Cursor::Normal { index: g as usize }, insert_at: v.insert_at }
            }
        },
    }
}

/// A cursor past the end of the text is shown as a blank.
pub open spec fn shown(c: Seq<char>) -> Seq<char> {
    if c.len() == 0 {
        seq![' ']
    } else {
        c
    }
}

/// The pieces of the line that shows the editor, each with its style.
pub open spec fn line_spans_spec(v: EditorView) -> Seq<(Seq<char>, SpanStyle)> {
    let t = v.text;
    match v.cursor {
        Cursor::Normal { index } => if index == 0 && t.len() == 0 {
            seq![(seq![' '], SpanStyle::Reversed)]
        } else {
            let cb = grapheme_start(t, index as int);
            let cs = cluster_at(t, index as int);
            seq![
                (t.take(cb), SpanStyle::Plain),
                (shown(cs), SpanStyle::Reversed),
                (t.skip(cb + cs.len()), SpanStyle::Plain),
            ]
        },
        Cursor::Select { begin, end, direction } => match direction {
            Direction::Left => {
                let cb = grapheme_start(t, begin as int);
                let cs = cluster_at(t, begin as int);
                let rest = t.skip(cb + cs.len());
                let (se, over) = grapheme_end_spec(rest, end - begin);
                if over {
                    seq![
                        (t.take(cb), SpanStyle::Plain),
                        (shown(cs), SpanStyle::Reversed),
                        (rest, SpanStyle::Selected),
                        (seq![' '], SpanStyle::Selected),
                    ]
                } else {
                    seq![
                        (t.take(cb), SpanStyle::Plain),
                        (shown(cs), SpanStyle::Reversed),
                        (rest.take(se), SpanStyle::Selected),
                        (rest.skip(se), SpanStyle::Plain),
                    ]
                }
            },
            Direction::Right => {
                let bi = grapheme_start(t, begin as int);
                let other = t.skip(bi);
                let cbi = grapheme_start(other, end - begin);
                let cs = cluster_at(other, end - begin);
                seq![
                    (t.take(bi), SpanStyle::Plain),
                    (other.take(cbi), SpanStyle::Selected),
                    (shown(cs), SpanStyle::Reversed),
                    (other.skip(cbi + cs.len()), SpanStyle::Plain),
                ]
            },
        },
    }
}

pub open spec fn span_view(p: (String, SpanStyle)) -> (Seq<char>, SpanStyle) {
    (p.0@, p.1)
}

/// The text of a piece, a blank in place of nothing.
fn shown_string(cs: &Vec<char>) -> (r: String)
    ensures
        r@ == shown(cs@),
{
    if cs.len() == 0 {
        let mut blank: Vec<char> = Vec::new();
        blank.push(' ');
        proof { assert(blank@ =~= seq![' ']); }
        string_of(blank.as_slice())
    } else {
        string_of(cs.as_slice())
    }
}

/// Character offset of cluster `n`, given the cluster starts of a text of `len` characters.
fn start_at(starts: &Vec<usize>, n: usize, len: usize, Ghost(t): Ghost<Seq<char>>) -> (r: usize)
    requires
        starts.len() == grapheme_count(t),
        forall|i: int| 0 <= i < starts.len() ==> starts[i] == grapheme_start(t, i),
        len == t.len(),
    ensures
        r == grapheme_start(t, n as int),
{
    if n < starts.len() {
        starts[n]
    } else {
        len
    }
}

/// Character offset where a selection ending at cluster `end` stops: the end
/// of that cluster.
fn selection_end_at(starts: &Vec<usize>, end: usize, len: usize, Ghost(t): Ghost<Seq<char>>) -> (r: usize)
    requires
        starts.len() == grapheme_count(t),
        forall|i: int| 0 <= i < starts.len() ==> starts[i] == grapheme_start(t, i),
        len == t.len(),
    ensures
        r == grapheme_start(t, end + 1),
{
    if end < starts.len() {
        start_at(starts, end + 1, len, Ghost(t))
    } else {
        len
    }
}

impl Default for Editor {
    fn default() -> (r: Self)
        ensures
            r@.text == Seq::<char>::empty(),
            r@.cursor == (Cursor::Normal { index: 0 }),
            r@.insert_at is None,
    {
        Editor { text: String::new(), cursor: Cursor::Normal { index: 0 }, insert_at: None }
    }
}

impl Editor {
    #[verifier::type_invariant]
    spec fn inv(self) -> bool {
        cursor_ok(self.cursor)
    }

    /// The cursor of the editor.
    pub fn cursor(&self) -> (r: Cursor)
        ensures
            r == self@.cursor,
            cursor_ok(r),
    {
        proof { use_type_invariant(self); }
        self.cursor
    }

    pub fn new() -> (r: Self)
        ensures
            r@.text == Seq::<char>::empty(),
            r@.cursor == (Cursor::Normal { index: 0 }),
            r@.insert_at is None,
    {
        Self::default()
    }

    pub fn new_with_text(str: String) -> (r: Self)
        ensures
            r@.text == str@,
            r@.cursor == (Cursor::Normal { index: 0 }),
            r@.insert_at is None,
    {
        Editor { text: str, cursor: Cursor::Normal { index: 0 }, insert_at: None }
    }

    /// An editor holding `str` with the given cursor.
    pub fn with_cursor(str: String, cursor: Cursor) -> (r: Self)
        requires
            cursor_ok(cursor),
        ensures
            r@.text == str@,
            r@.cursor == cursor,
            r@.insert_at is None,
    {
        Editor { text: str, cursor, insert_at: None }
    }

    pub fn is_empty(&self) -> (r: bool)
        ensures
            r == (self@.text.len() == 0),
    {
        self.text.as_str().is_empty()
    }

    /// Number of grapheme clusters of the text.
    pub fn content_len(&self) -> (r: usize)
        ensures
            r == grapheme_count(self@.text),
    {
        grapheme_len(self.text.as_str())
    }

    pub fn into_string(self) -> (r: String)
        ensures
            r@ == self@.text,
    {
        self.text
    }

    pub fn as_str(&self) -> (r: &str)
        ensures
            r@ == self@.text,
    {
        self.text.as_str()
    }

    pub fn right_arrow(&mut self)
        ensures
            final(self)@ == right_arrow_spec(old(self)@),
    {
        proof { use_type_invariant(&*self); }
        let n = self.content_len();
        match self.cursor {
            Cursor::Normal { index } => {
                if index < n {
                    self.insert_at = None;
                    self.cursor = Cursor::Normal { index: index + 1 };
                }
            },
            Cursor::Select { begin, end, .. } => {
                let new_index = if begin == end && end < n { end + 1 } else { end };
                self.cursor = Cursor::Normal { index: new_index };
            },
        }
    }

    pub fn left_arrow(&mut self)
        ensures
            final(self)@ == left_arrow_spec(old(self)@),
    {
        proof { use_type_invariant(&*self); }
        match self.cursor {
            Cursor::Normal { index } => {
                if index > 0 {
                    self.insert_at = None;
                    self.cursor = Cursor::Normal { index: index - 1 };
                }
            },
            Cursor::Select { begin, end, .. } => {
                let new_index = if begin == end && begin > 0 { begin - 1 } else { begin };
                self.cursor = Cursor::Normal { index: new_index };
            },
        }
    }

    /// The selection with its ends swapped and its direction turned around.
    fn swap_direction(begin: usize, end: usize, direction: Direction) -> (r: Cursor)
        ensures
            r == (Cursor::Select { begin: end, end: begin, direction: flip(direction) }),
    {
        let d = match direction {
            Direction::Left => Direction::Right,
            Direction::Right => Direction::Left,
        };
        Cursor::Select { begin: end, end: begin, direction: d }
    }

    /// A selection from `begin` to `end`, turned around when its ends crossed.
    fn ordered(begin: usize, end: usize, direction: Direction) -> (r: Cursor)
        ensures
            r == ordered_selection(begin as int, end as int, direction),
            cursor_ok(r),
    {
        if begin > end {
            Self::swap_direction(begin, end, direction)
        } else {
            Cursor::Select { begin, end, direction }
        }
    }

    pub fn right_arrow_shift(&mut self)
        ensures
            final(self)@ == right_arrow_shift_spec(old(self)@),
    {
        proof { use_type_invariant(&*self); }
        let n = self.content_len();
        match self.cursor {
            Cursor::Normal { index } => {
                if index < n {
                    self.insert_at = None;
                    self.cursor = Cursor::Select { begin: index, end: index + 1, direction: Direction::Right };
                }
            },
            Cursor::Select { begin, end, direction } => {
                let c = match direction {
                    Direction::Left => {
                        let b = if begin < n { begin + 1 } else { begin };
                        Self::ordered(b, end, direction)
                    },
                    Direction::Right => {
                        let e = if end < n { end + 1 } else { end };
                        Self::ordered(begin, e, direction)
                    },
                };
                self.cursor = c;
            },
        }
    }

    pub fn left_arrow_shift(&mut self)
        ensures
            final(self)@ == left_arrow_shift_spec(old(self)@),
    {
        proof { use_type_invariant(&*self); }
        match self.cursor {
            Cursor::Normal { index } => {
                if index > 0 {
                    self.insert_at = None;
                    self.cursor = Cursor::Select { begin: index - 1, end: index, direction: Direction::Left };
                }
            },
            Cursor::Select { begin, end, direction } => {
                let c = match direction {
                    Direction::Left => {
                        let b = if begin > 0 { begin - 1 } else { begin };
                        Self::ordered(b, end, direction)
                    },
                    Direction::Right => {
                        let e = if end > 0 { end - 1 } else { end };
                        Self::ordered(begin, e, direction)
                    },
                };
                self.cursor = c;
            },
        }
    }

    pub fn select_all(&mut self)
        ensures
            final(self)@ == select_all_spec(old(self)@),
    {
        proof { use_type_invariant(&*self); }
        if !self.is_empty() {
            let n = self.content_len();
            self.insert_at = None;
            self.cursor = Cursor::Select { begin: 0, end: n, direction: Direction::Right };
        }
    }

    /// Deletes the cluster before the cursor, or the selection.
    pub fn backspace(&mut self)
        ensures
            final(self)@ == backspace_spec(old(self)@),
    {
        proof { use_type_invariant(&*self); }
        if self.is_empty() {
            return;
        }
        let ghost t = self.text@;
        let starts = grapheme_starts(self.text.as_str());
        let chars = chars_of(self.text.as_str());
        let len = chars.len();
        let nothing: Vec<char> = Vec::new();
        match self.cursor {
            Cursor::Normal { index } => {
                if index == 0 {
                    return;
                }
                let from = start_at(&starts, index - 1, len, Ghost(t));
                let to = start_at(&starts, index, len, Ghost(t));
                proof { lemma_grapheme_start_mono(t, index - 1, index as int); }
                let rest = splice_chars(chars.as_slice(), from, to, nothing.as_slice());
                proof { assert(rest@ =~= t.take(from as int) + t.skip(to as int)); }
                self.text = string_of(rest.as_slice());
                self.insert_at = None;
                self.cursor = Cursor::Normal { index: index - 1 };
            },
            Cursor::Select { begin, end, .. } => {
                let from = start_at(&starts, begin, len, Ghost(t));
                let to = selection_end_at(&starts, end, len, Ghost(t));
                proof { lemma_grapheme_start_mono(t, begin as int, end + 1); }
                let rest = splice_chars(chars.as_slice(), from, to, nothing.as_slice());
                proof { assert(rest@ =~= t.take(from as int) + t.skip(to as int)); }
                self.text = string_of(rest.as_slice());
                self.cursor = Cursor::Normal { index: begin };
            },
        }
    }

    /// Whether a remembered insertion point lies within the text.
    pub fn can_insert(&self) -> (r: bool)
        ensures
            r == insert_ready(self@),
    {
        match (self.cursor, self.insert_at) {
            (Cursor::Normal { .. }, Some(i)) => i <= char_len(self.text.as_str()),
            _ => true,
        }
    }

    /// Types `ch`: it goes at the remembered insertion point, else before the
    /// cluster under the cursor, or it replaces the selection.
    pub fn insert(&mut self, ch: char)
        requires
            insert_ready(old(self)@),
        ensures
            final(self)@ == insert_spec(old(self)@, ch),
    {
        proof { use_type_invariant(&*self); }
        let ghost t = self.text@;
        let chars = chars_of(self.text.as_str());
        let len = chars.len();
        let mut one: Vec<char> = Vec::new();
        one.push(ch);
        let nothing: Vec<char> = Vec::new();
        match self.cursor {
            Cursor::Normal { index } => {
                let at = match self.insert_at {
                    Some(i) => i,
                    None => {
                        let starts = grapheme_starts(self.text.as_str());
                        proof { lemma_grapheme_start_mono(t, index as int, index as int); }
                        start_at(&starts, index, len, Ghost(t))
                    },
                };
                let typed = splice_chars(chars.as_slice(), at, at, one.as_slice());
                let typed_len = typed.len();
                assert(at < typed_len);
                let after = at + 1;
                let head = splice_chars(typed.as_slice(), after, typed.len(), nothing.as_slice());
                proof {
                    assert(typed@ =~= t.take(at as int) + seq![ch] + t.skip(at as int));
                    assert(head@ =~= typed@.take(after as int));
                }
                let prefix = string_of(head.as_slice());
                let g = grapheme_len(prefix.as_str());
                self.text = string_of(typed.as_slice());
                self.cursor = Cursor::Normal { index: g };
                self.insert_at = Some(after);
            },
            Cursor::Select { begin, end, .. } => {
                let starts = grapheme_starts(self.text.as_str());
                let from = start_at(&starts, begin, len, Ghost(t));
                let to = selection_end_at(&starts, end, len, Ghost(t));
                proof { lemma_grapheme_start_mono(t, begin as int, end + 1); }
                let typed = splice_chars(chars.as_slice(), from, to, one.as_slice());
                let typed_len = typed.len();
                assert(from < typed_len);
                let after = from + 1;
                let head = splice_chars(typed.as_slice(), after, typed.len(), nothing.as_slice());
                proof {
                    assert(typed@ =~= t.take(from as int) + seq![ch] + t.skip(to as int));
                    assert(head@ =~= typed@.take(after as int));
                }
                let prefix = string_of(head.as_slice());
                let g = grapheme_len(prefix.as_str());
                self.text = string_of(typed.as_slice());
                if g == begin {
                    self.insert_at = Some(after);
                } else {
                    self.cursor = Cursor::Normal { index: g };
                }
            },
        }
    }

    /// The line that shows the editor: the text cut into pieces around the
    /// cursor and the selection, each with the style it is shown in.
    pub fn line_spans(&self) -> (r: Vec<(String, SpanStyle)>)
        ensures
            r@.map_values(|p: (String, SpanStyle)| span_view(p)) == line_spans_spec(self@),
    {
        proof { use_type_invariant(self); }
        let ghost t = self.text@;
        let chars = chars_of(self.text.as_str());
        let len = chars.len();
        let mut out: Vec<(String, SpanStyle)> = Vec::new();
        match self.cursor {
            Cursor::Normal { index } => {
                if index == 0 && len == 0 {
                    let nothing: Vec<char> = Vec::new();
                    out.push((shown_string(&nothing), SpanStyle::Reversed));
                } else {
                    let (cb, cs) = grapheme_index_str(self.text.as_str(), index);
                    let before = slice_chars(chars.as_slice(), 0, cb);
                    let after = slice_chars(chars.as_slice(), cb + cs.len(), len);
                    proof {
                        assert(before@ =~= t.take(cb as int));
                        assert(after@ =~= t.skip(cb + cs@.len()));
                    }
                    out.push((string_of(before.as_slice()), SpanStyle::Plain));
                    out.push((shown_string(&cs), SpanStyle::Reversed));
                    out.push((string_of(after.as_slice()), SpanStyle::Plain));
                }
            },
            Cursor::Select { begin, end, direction } => match direction {
                Direction::Left => {
                    let (cb, cs) = grapheme_index_str(self.text.as_str(), begin);
                    let before = slice_chars(chars.as_slice(), 0, cb);
                    let rest = slice_chars(chars.as_slice(), cb + cs.len(), len);
                    let rest_str = string_of(rest.as_slice());
                    let (se, over) = grapheme_index_end(rest_str.as_str(), end - begin);
                    proof {
                        assert(before@ =~= t.take(cb as int));
                        assert(rest@ =~= t.skip(cb + cs@.len()));
                    }
                    out.push((string_of(before.as_slice()), SpanStyle::Plain));
                    out.push((shown_string(&cs), SpanStyle::Reversed));
                    if over {
                        let mut blank: Vec<char> = Vec::new();
                        blank.push(' ');
                        proof { assert(blank@ =~= seq![' ']); }
                        out.push((rest_str, SpanStyle::Selected));
                        out.push((string_of(blank.as_slice()), SpanStyle::Selected));
                    } else {
                        let selection = slice_chars(rest.as_slice(), 0, se);
                        let after = slice_chars(rest.as_slice(), se, rest.len());
                        proof {
                            assert(selection@ =~= rest@.take(se as int));
                            assert(after@ =~= rest@.skip(se as int));
                        }
                        out.push((string_of(selection.as_slice()), SpanStyle::Selected));
                        out.push((string_of(after.as_slice()), SpanStyle::Plain));
                    }
                },
                Direction::Right => {
                    let starts = grapheme_starts(self.text.as_str());
                    let bi = start_at(&starts, begin, len, Ghost(t));
                    proof { lemma_grapheme_start_mono(t, begin as int, begin as int); }
                    let before = slice_chars(chars.as_slice(), 0, bi);
                    let other = slice_chars(chars.as_slice(), bi, len);
                    let other_str = string_of(other.as_slice());
                    let (cbi, cs) = grapheme_index_str(other_str.as_str(), end - begin);
                    let selection = slice_chars(other.as_slice(), 0, cbi);
                    let after = slice_chars(other.as_slice(), cbi + cs.len(), other.len());
                    proof {
                        assert(before@ =~= t.take(bi as int));
                        assert(other@ =~= t.skip(bi as int));
                        assert(selection@ =~= other@.take(cbi as int));
                        assert(after@ =~= other@.skip(cbi + cs@.len()));
                    }
                    out.push((string_of(before.as_slice()), SpanStyle::Plain));
                    out.push((string_of(selection.as_slice()), SpanStyle::Selected));
                    out.push((shown_string(&cs), SpanStyle::Reversed));
                    out.push((string_of(after.as_slice()), SpanStyle::Plain));
                },
            },
        }
        proof {
            assert(out@.map_values(|p: (String, SpanStyle)| span_view(p)) =~= line_spans_spec(self@));
        }
        out
    }

} // impl Editor

/// The cursor and both ends of a selection lie within the text's clusters.
pub open spec fn cursor_within(v: EditorView) -> bool {
    let n = grapheme_count(v.text);
    match v.cursor {
        Cursor::Normal { index } => index <= n,
        Cursor::Select { begin, end, .. } => begin <= end <= n,
    }
}

/// Moving the cursor, with or without shift, and selecting all never change
/// the text, and keep a cursor that lay within the text within it.
pub proof fn law_cursor_moves_keep_text(v: EditorView)
    requires
        grapheme_count(v.text) <= usize::MAX,
    ensures
        right_arrow_spec(v).text == v.text,
        left_arrow_spec(v).text == v.text,
        right_arrow_shift_spec(v).text == v.text,
        left_arrow_shift_spec(v).text == v.text,
        select_all_spec(v).text == v.text,
        cursor_within(v) ==> cursor_within(right_arrow_spec(v)),
        cursor_within(v) ==> cursor_within(left_arrow_spec(v)),
        cursor_within(v) ==> cursor_within(right_arrow_shift_spec(v)),
        cursor_within(v) ==> cursor_within(left_arrow_shift_spec(v)),
        cursor_within(select_all_spec(v)) || select_all_spec(v) == v,
{
}

/// A move of the cursor: an arrow key, with or without shift, or select-all.
#[derive(Debug, Clone, Copy, PartialEq, Eq, Structural)]
pub enum CursorMove {
    Right,
    Left,
    ShiftRight,
    ShiftLeft,
    SelectAll,
}

/// The editor after one move of the cursor.
pub open spec fn move_spec(v: EditorView, m: CursorMove) -> EditorView {
    match m {
        CursorMove::Right => right_arrow_spec(v),
        CursorMove::Left => left_arrow_spec(v),
        CursorMove::ShiftRight => right_arrow_shift_spec(v),
        CursorMove::ShiftLeft => left_arrow_shift_spec(v),
        CursorMove::SelectAll => select_all_spec(v),
    }
}

/// The editor after the moves of `ms`, in order.
pub open spec fn moves_spec(v: EditorView, ms: Seq<CursorMove>) -> EditorView
    decreases ms.len(),
{
    if ms.len() == 0 {
        v
    } else {
        move_spec(moves_spec(v, ms.drop_last()), ms.last())
    }
}

/// No sequence of cursor moves and selections changes the text: an editor
/// made with a text gives that text back after any of them.
pub proof fn law_cursor_move_sequences_keep_text(v: EditorView, ms: Seq<CursorMove>)
    requires
        grapheme_count(v.text) <= usize::MAX,
    ensures
        moves_spec(v, ms).text == v.text,
    decreases ms.len(),
{
    if ms.len() > 0 {
        law_cursor_move_sequences_keep_text(v, ms.drop_last());
        law_cursor_moves_keep_text(moves_spec(v, ms.drop_last()));
    }
}

/// Without a selection, the left arrow undoes the right arrow wherever the
/// right arrow could move.
pub proof fn law_left_undoes_right(v: EditorView)
    requires
        v.cursor matches Cursor::Normal { index } && index < grapheme_count(v.text),
        grapheme_count(v.text) <= usize::MAX,
    ensures
        left_arrow_spec(right_arrow_spec(v)) == moved(v, v.cursor),
{
}

/// Selecting all and pressing backspace empties a non-empty text and puts the
/// cursor at its start.
pub proof fn law_select_all_then_backspace_clears(v: EditorView)
    requires
        v.text.len() > 0,
        well_segmented(v.text),
        grapheme_count(v.text) <= usize::MAX,
    ensures
        backspace_spec(select_all_spec(v)).text == Seq::<char>::empty(),
        backspace_spec(select_all_spec(v)).cursor == (Cursor::Normal { index: 0 }),
{
    lemma_grapheme_start_mono(v.text, 0, 0);
    if grapheme_count(v.text) == 0 {
        crate::text::lemma_concat_take_all(graphemes_of(v.text));
        assert(graphemes_of(v.text) =~= Seq::<Seq<char>>::empty());
    }
    let t = v.text;
    assert(t.take(0) + t.skip(t.len() as int) =~= Seq::<char>::empty());
}

/// Shift with the left arrow moves the moving end of a selection one cluster
/// to the left: a plain cursor after the start selects the cluster before
/// it; a selection made leftwards grows by one cluster at its start, until
/// the start of the text; one made rightwards gives up its last cluster. The
/// text stays as it is.
pub proof fn law_shift_left_moves_one_cluster(v: EditorView)
    requires
        cursor_ok(v.cursor),
    ensures
        left_arrow_shift_spec(v).text == v.text,
        (v.cursor is Normal && v.cursor->index > 0 ==> left_arrow_shift_spec(v).cursor == (Cursor::Select {
            begin: (v.cursor->index - 1) as usize,
            end: v.cursor->index,
            direction: Direction::Left,
        })),
        (v.cursor is Normal && v.cursor->index == 0 ==> left_arrow_shift_spec(v) == v),
        (v.cursor is Select && v.cursor->direction == Direction::Left && v.cursor->begin > 0 ==> left_arrow_shift_spec(v).cursor == (
        Cursor::Select { begin: (v.cursor->begin - 1) as usize, end: v.cursor->end, direction: Direction::Left })),
        (v.cursor is Select && v.cursor->direction == Direction::Left && v.cursor->begin == 0 ==> left_arrow_shift_spec(v).cursor
            == v.cursor),
        (v.cursor is Select && v.cursor->direction == Direction::Right && v.cursor->begin < v.cursor->end
            ==> left_arrow_shift_spec(v).cursor == (Cursor::Select {
            begin: v.cursor->begin,
            end: (v.cursor->end - 1) as usize,
            direction: Direction::Right,
        })),
{
}

/// Shift with the right arrow moves the moving end of a selection one
/// cluster to the right: a plain cursor before the end selects the cluster
/// after it; a selection made rightwards grows by one cluster at its end,
/// until the end of the text; one made leftwards gives up its first cluster.
/// The text stays as it is.
pub proof fn law_shift_right_moves_one_cluster(v: EditorView)
    requires
        cursor_ok(v.cursor),
        grapheme_count(v.text) <= usize::MAX,
    ensures
        right_arrow_shift_spec(v).text == v.text,
        (v.cursor is Normal && v.cursor->index < grapheme_count(v.text) ==> right_arrow_shift_spec(v).cursor == (Cursor::Select {
            begin: v.cursor->index,
            end: (v.cursor->index + 1) as usize,
            direction: Direction::Right,
        })),
        (v.cursor is Select && v.cursor->direction == Direction::Right && v.cursor->end < grapheme_count(v.text)
            ==> right_arrow_shift_spec(v).cursor == (Cursor::Select {
            begin: v.cursor->begin,
            end: (v.cursor->end + 1) as usize,
            direction: Direction::Right,
        })),
        (v.cursor is Select && v.cursor->direction == Direction::Right && v.cursor->end >= grapheme_count(v.text)
            ==> right_arrow_shift_spec(v).cursor == v.cursor),
        (v.cursor is Select && v.cursor->direction == Direction::Left && v.cursor->begin < v.cursor->end
            && v.cursor->end <= grapheme_count(v.text) ==> right_arrow_shift_spec(v).cursor == (Cursor::Select {
            begin: (v.cursor->begin + 1) as usize,
            end: v.cursor->end,
            direction: Direction::Left,
        })),
{
}

} // verus!
