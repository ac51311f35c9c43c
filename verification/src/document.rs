//! The text buffer: an ordered sequence of lines, an optional buffer name,
//! and a dirty flag that is set by mutations and cleared only by a
//! successful persist.

use vstd::prelude::*;

use crate::editor::Position;
use crate::row::{row_delete, row_insert, row_split_left, row_split_right, row_find, Row};
use crate::text::{concat_all, grapheme_clusters, segment_graphemes};

verus! {

/// The buffer after a newline is inserted at `(x, y)`: the line at `y` is
/// split at column `x` and the remainder becomes the following line; at
/// the append position a new empty line is added.
pub open spec fn doc_insert_newline(lines: Seq<Seq<Seq<char>>>, x: int, y: int) -> Seq<
    Seq<Seq<char>>,
> {
    if y == lines.len() {
        lines.push(Seq::empty())
    } else {
        lines.update(y, row_split_left(lines[y], x)).insert(y + 1, row_split_right(lines[y], x))
    }
}

/// The buffer after character `c` is inserted at `(x, y)`. A newline
/// splits the line; at the append position a new one-character line is
/// added; a `y` beyond the append position changes nothing.
pub open spec fn doc_insert(lines: Seq<Seq<Seq<char>>>, x: int, y: int, c: char) -> Seq<
    Seq<Seq<char>>,
> {
    if y > lines.len() || y < 0 {
        lines
    } else if c == '\n' {
        doc_insert_newline(lines, x, y)
    } else if y == lines.len() {
        lines.push(seq![seq![c]])
    } else {
        lines.update(y, row_insert(lines[y], x, c))
    }
}

/// The buffer after a deletion at `(x, y)`: at the end of a line with a
/// following line the two lines merge; otherwise the cluster at `x` is
/// removed from line `y`; a `y` past the last line changes nothing.
pub open spec fn doc_delete(lines: Seq<Seq<Seq<char>>>, x: int, y: int) -> Seq<Seq<Seq<char>>> {
    if y >= lines.len() || y < 0 {
        lines
    } else if x == lines[y].len() && y + 1 < lines.len() {
        lines.update(y, lines[y] + lines[y + 1]).remove(y + 1)
    } else {
        lines.update(y, row_delete(lines[y], x))
    }
}

/// The buffer after the whole line at `at` is removed; an out-of-range
/// index changes nothing.
pub open spec fn doc_delete_row(lines: Seq<Seq<Seq<char>>>, at: int) -> Seq<Seq<Seq<char>>> {
    if 0 <= at < lines.len() {
        lines.remove(at)
    } else {
        lines
    }
}

/// The buffer after a whole line is inserted at `at`; an index past the
/// append position changes nothing.
pub open spec fn doc_insert_row(lines: Seq<Seq<Seq<char>>>, row: Seq<Seq<char>>, at: int) -> Seq<
    Seq<Seq<char>>,
> {
    if 0 <= at <= lines.len() {
        lines.insert(at, row)
    } else {
        lines
    }
}

/// The first match of `q` scanning lines in increasing order from line
/// `y`, as `(x, y)` grapheme coordinates; the scan does not wrap.
pub open spec fn doc_find_from(lines: Seq<Seq<Seq<char>>>, q: Seq<Seq<char>>, y: int) -> Option<
    (int, int),
>
    decreases lines.len() - y,
{
    if y >= lines.len() || y < 0 {
        None
    } else {
        match row_find(lines[y], q) {
            Some(x) => Some((x, y)),
            None => doc_find_from(lines, q, y + 1),
        }
    }
}

/// A found match lies on a line at or below the anchor, and its column
/// leaves room for the whole query on that line.
pub proof fn lemma_doc_find_from_bounds(lines: Seq<Seq<Seq<char>>>, q: Seq<Seq<char>>, y: int)
    requires
        0 <= y,
    ensures
        doc_find_from(lines, q, y) matches Some(p) ==> y <= p.1 < lines.len() && 0 <= p.0 && p.0
            + q.len() <= lines[p.1].len(),
    decreases lines.len() - y,
{
    if y >= lines.len() || y < 0 {
    } else {
        if row_find(lines[y], q) is Some {
            crate::row::lemma_row_find_from_bounds(lines[y], q, 0);
        } else {
            lemma_doc_find_from_bounds(lines, q, y + 1);
        }
    }
}

/// Re-inserting a value where one was removed is an update.
pub proof fn lemma_remove_insert<T>(s: Seq<T>, i: int, v: T)
    requires
        0 <= i < s.len(),
    ensures
        s.remove(i).insert(i, v) =~= s.update(i, v),
{
}

/// The text buffer: ordered lines, an optional buffer name, and the dirty
/// flag.
pub struct Document {
    rows: Vec<Row>,
    pub file_name: Option<String>,
    dirty: bool,
}

impl Default for Document {
    /// An empty buffer: no lines at all, no name, not dirty.
    fn default() -> (r: Self)
        ensures
            r.wf(),
            r.lines() == Seq::<Seq<Seq<char>>>::empty(),
            r.spec_file_name() is None,
            !r.spec_dirty(),
    {
        let r = Document { rows: Vec::new(), file_name: None, dirty: false };
        proof {
            assert(r.lines() =~= Seq::<Seq<Seq<char>>>::empty());
        }
        r
    }
}

impl Document {
    /// The buffer's lines, each a sequence of grapheme clusters.
    pub closed spec fn lines(&self) -> Seq<Seq<Seq<char>>> {
        self.rows.deep_view()
    }

    /// Whether the buffer holds unsaved mutations.
    pub closed spec fn spec_dirty(&self) -> bool {
        self.dirty
    }

    /// The buffer's optional name.
    pub closed spec fn spec_file_name(&self) -> Option<String> {
        self.file_name
    }

    /// Gives the buffer its name (or takes it away).
    pub fn set_file_name(&mut self, name: Option<String>)
        ensures
            final(self).lines() == old(self).lines(),
            final(self).wf() == old(self).wf(),
            final(self).spec_dirty() == old(self).spec_dirty(),
            final(self).spec_file_name() == name,
    {
        self.file_name = name;
    }

    /// Every line's cached length agrees with its live cluster count.
    pub closed spec fn wf(&self) -> bool {
        forall|i: int| 0 <= i < self.rows@.len() ==> (#[trigger] self.rows@[i]).wf()
    }

    /// A buffer pre-populated from an ordered sequence of line strings, as
    /// handed over by a loading collaborator.
    pub fn from_lines(source: &Vec<String>, file_name: Option<String>) -> (r: Document)
        ensures
            r.wf(),
            r.lines().len() == source@.len(),
            forall|i: int| 0 <= i < source@.len() ==> r.lines()[i] == grapheme_clusters(
                source@[i]@,
            ),
            r.spec_file_name() == file_name,
            !r.spec_dirty(),
    {
        let mut rows: Vec<Row> = Vec::new();
        let mut i: usize = 0;
        while i < source.len()
            invariant
                0 <= i <= source@.len(),
                rows@.len() == i,
                forall|j: int| 0 <= j < i ==> (#[trigger] rows@[j]).wf(),
                forall|j: int| 0 <= j < i ==> rows@[j]@ == grapheme_clusters(source@[j]@),
            decreases source@.len() - i,
        {
            let row = Row::from(source[i].as_str());
            rows.push(row);
            i = i + 1;
        }
        let r = Document { rows, file_name, dirty: false };
        r
    }

    /// The number of lines in the buffer.
    pub fn len(&self) -> (r: usize)
        ensures
            r == self.lines().len(),
    {
        self.rows.len()
    }

    /// Whether the buffer holds no lines at all.
    pub fn is_empty(&self) -> (r: bool)
        ensures
            r == (self.lines().len() == 0),
    {
        self.rows.is_empty()
    }

    /// Whether the buffer holds unsaved mutations, through a shared
    /// reference, for a rendering collaborator.
    pub fn dirty(&self) -> (r: bool)
        ensures
            r == self.spec_dirty(),
    {
        self.dirty
    }

    /// Whether the buffer holds unsaved mutations.
    pub fn is_dirty(&mut self) -> (r: bool)
        ensures
            *final(self) == *old(self),
            r == old(self).spec_dirty(),
    {
        self.dirty
    }

    /// The line at `index`, if the buffer has one.
    pub fn row(&self, index: usize) -> (r: Option<&Row>)
        requires
            self.wf(),
        ensures
            index < self.lines().len() ==> (r matches Some(row) && row@ == self.lines()[index as int]
                && row.wf()),
            index >= self.lines().len() ==> r is None,
    {
        if index < self.rows.len() {
            Some(&self.rows[index])
        } else {
            None
        }
    }

    /// Inserts character `c` at `at`: a newline splits the line there, the
    /// append position gains a new line, any other valid position inserts
    /// into the line; a `y` beyond the append position is ignored. Marks
    /// the buffer dirty in all mutating cases.
    pub fn insert(&mut self, at: &Position, c: char)
        requires
            old(self).wf(),
        ensures
            final(self).wf(),
            final(self).lines() == doc_insert(old(self).lines(), at.x as int, at.y as int, c),
            at.y <= old(self).lines().len() ==> final(self).spec_dirty(),
            at.y > old(self).lines().len() ==> final(self).spec_dirty() == old(self).spec_dirty(),
            final(self).spec_file_name() == old(self).spec_file_name(),
    {
        let len = self.rows.len();
        if at.y > len {
            return ;
        }
        self.dirty = true;
        if c == '\n' {
            self.insert_newline(at);
            return ;
        }
        if at.y == len {
            let mut row = Row::default();
            row.insert(0, c);
            self.rows.push(row);
            proof {
                assert(row@ =~= seq![seq![c]]);
                assert(self.lines() =~= old(self).lines().push(seq![seq![c]]));
            }
        } else {
            let mut row = self.rows.remove(at.y);
            row.insert(at.x, c);
            self.rows.insert(at.y, row);
            proof {
                lemma_remove_insert(old(self).rows@, at.y as int, row);
                assert(self.lines() =~= old(self).lines().update(
                    at.y as int,
                    row_insert(old(self).lines()[at.y as int], at.x as int, c),
                ));
            }
        }
    }

    /// Splits the line at `at` into two lines; at the append position a
    /// new empty line is added instead.
    fn insert_newline(&mut self, at: &Position)
        requires
            old(self).wf(),
            at.y <= old(self).lines().len(),
        ensures
            final(self).wf(),
            final(self).lines() == doc_insert_newline(old(self).lines(), at.x as int, at.y as int),
            final(self).spec_dirty() == old(self).spec_dirty(),
            final(self).spec_file_name() == old(self).spec_file_name(),
    {
        let len = self.rows.len();
        if at.y == len {
            self.rows.push(Row::default());
            proof {
                assert(self.lines() =~= old(self).lines().push(Seq::<Seq<char>>::empty()));
            }
            return ;
        }
        let mut row = self.rows.remove(at.y);
        let new_row = row.split(at.x);
        self.rows.insert(at.y, row);
        self.rows.insert(at.y + 1, new_row);
        proof {
            lemma_remove_insert(old(self).rows@, at.y as int, row);
            assert(self.lines() =~= doc_insert_newline(
                old(self).lines(),
                at.x as int,
                at.y as int,
            ));
        }
    }

    /// Deletes at `at`: at the end of a line with a following line the two
    /// lines merge, otherwise the cluster at `at.x` is removed from line
    /// `at.y`; a `y` past the last line changes nothing. Marks the buffer
    /// dirty.
    pub fn delete(&mut self, at: &Position)
        requires
            old(self).wf(),
        ensures
            final(self).wf(),
            final(self).lines() == doc_delete(old(self).lines(), at.x as int, at.y as int),
            final(self).spec_dirty(),
            final(self).spec_file_name() == old(self).spec_file_name(),
    {
        self.dirty = true;
        let len = self.rows.len();
        if at.y >= len {
            return ;
        }
        let row_len = self.rows[at.y].len();
        if at.x == row_len && at.y + 1 < len {
            let next_row = self.rows.remove(at.y + 1);
            let mut row = self.rows.remove(at.y);
            row.append(&next_row);
            self.rows.insert(at.y, row);
            proof {
                assert(self.lines() =~= old(self).lines().update(
                    at.y as int,
                    old(self).lines()[at.y as int] + old(self).lines()[at.y as int + 1],
                ).remove(at.y as int + 1));
            }
        } else {
            let mut row = self.rows.remove(at.y);
            row.delete(at.x);
            self.rows.insert(at.y, row);
            proof {
                lemma_remove_insert(old(self).rows@, at.y as int, row);
                assert(self.lines() =~= old(self).lines().update(
                    at.y as int,
                    row_delete(old(self).lines()[at.y as int], at.x as int),
                ));
            }
        }
    }

    /// Removes the whole line at `at`; an out-of-range index removes
    /// nothing. Marks the buffer dirty.
    pub fn delete_row(&mut self, at: usize)
        requires
            old(self).wf(),
        ensures
            final(self).wf(),
            final(self).lines() == doc_delete_row(old(self).lines(), at as int),
            final(self).spec_dirty(),
            final(self).spec_file_name() == old(self).spec_file_name(),
    {
        self.dirty = true;
        if at < self.rows.len() {
            let _removed = self.rows.remove(at);
            proof {
                assert(self.lines() =~= old(self).lines().remove(at as int));
            }
        }
    }

    /// Inserts a whole line at `at`; an index past the append position
    /// inserts nothing. Marks the buffer dirty.
    pub fn insert_row(&mut self, row: Row, at: usize)
        requires
            old(self).wf(),
            row.wf(),
        ensures
            final(self).wf(),
            final(self).lines() == doc_insert_row(old(self).lines(), row@, at as int),
            final(self).spec_dirty(),
            final(self).spec_file_name() == old(self).spec_file_name(),
    {
        self.dirty = true;
        if at <= self.rows.len() {
            let ghost rv = row@;
            self.rows.insert(at, row);
            proof {
                assert(self.lines() =~= old(self).lines().insert(at as int, rv));
            }
        }
    }

    /// The first match of the query's clusters, scanning lines in
    /// increasing order from `from.y`, without wrapping.
    pub fn find_clusters(&self, query: &Vec<String>, from: &Position) -> (r: Option<Position>)
        requires
            self.wf(),
        ensures
            r matches Some(p) ==> doc_find_from(self.lines(), query.deep_view(), from.y as int)
                == Some((p.x as int, p.y as int)),
            r is None ==> doc_find_from(self.lines(), query.deep_view(), from.y as int) is None,
    {
        let mut y = from.y;
        while y < self.rows.len()
            invariant
                self.wf(),
                from.y <= y,
                doc_find_from(self.lines(), query.deep_view(), from.y as int) == doc_find_from(
                    self.lines(),
                    query.deep_view(),
                    y as int,
                ),
            decreases self.rows@.len() - y,
        {
            let row = &self.rows[y];
            match row.find_clusters(query) {
                Some(x) => {
                    proof {
                        assert(doc_find_from(self.lines(), query.deep_view(), y as int) == Some(
                            (x as int, y as int),
                        ));
                    }
                    return Some(Position { x, y });
                },
                None => {
                    proof {
                        assert(doc_find_from(self.lines(), query.deep_view(), y as int)
                            == doc_find_from(self.lines(), query.deep_view(), y as int + 1));
                    }
                },
            }
            y = y + 1;
        }
        None
    }

    /// The first match of `query`, scanning lines in increasing order from
    /// `cursor_position.y`, without wrapping; the match column is a
    /// grapheme index.
    pub fn find(&mut self, query: &str, cursor_position: &Position) -> (r: Option<Position>)
        requires
            old(self).wf(),
        ensures
            *final(self) == *old(self),
            r matches Some(p) ==> doc_find_from(
                old(self).lines(),
                grapheme_clusters(query@),
                cursor_position.y as int,
            ) == Some((p.x as int, p.y as int)),
            r is None ==> doc_find_from(
                old(self).lines(),
                grapheme_clusters(query@),
                cursor_position.y as int,
            ) is None,
    {
        let q = segment_graphemes(query);
        self.find_clusters(&q, cursor_position)
    }

    /// The text of each line in order, for a persisting collaborator to
    /// write out, each line to be terminated by a line break.
    pub fn save_lines(&self) -> (r: Vec<String>)
        requires
            self.wf(),
        ensures
            r@.len() == self.lines().len(),
            forall|i: int| 0 <= i < r@.len() ==> r@[i]@ == concat_all(self.lines()[i]),
    {
        let mut out: Vec<String> = Vec::new();
        let mut i: usize = 0;
        while i < self.rows.len()
            invariant
                self.wf(),
                0 <= i <= self.rows@.len(),
                out@.len() == i,
                forall|j: int| 0 <= j < i ==> (#[trigger] out@[j])@ == concat_all(self.lines()[j]),
            decreases self.rows@.len() - i,
        {
            let line = self.rows[i].contents();
            out.push(line);
            i = i + 1;
        }
        out
    }

    /// Records the outcome the persisting collaborator reported: success
    /// clears the dirty flag, failure leaves it as it was.
    pub fn finish_save(&mut self, success: bool)
        requires
            old(self).wf(),
        ensures
            final(self).wf(),
            final(self).lines() == old(self).lines(),
            final(self).spec_file_name() == old(self).spec_file_name(),
            final(self).spec_dirty() == (old(self).spec_dirty() && !success),
    {
        if success {
            self.dirty = false;
        }
    }
}

/// Law: inserting a character at the append position (`y` equal to the
/// line count) appends exactly one new line to the buffer: a line of that
/// one character, or an empty line for a newline.
pub proof fn lemma_insert_at_end_appends(lines: Seq<Seq<Seq<char>>>, x: int, c: char)
    ensures
        doc_insert(lines, x, lines.len() as int, c).len() == lines.len() + 1,
        doc_insert(lines, x, lines.len() as int, c) == lines.push(
            if c == '\n' {
                Seq::empty()
            } else {
                seq![seq![c]]
            },
        ),
{
}

/// Law: deleting at the end of line `y` when line `y + 1` exists merges
/// the two lines into one: the line count drops by exactly one and the
/// merged line is the concatenation of the two original lines.
pub proof fn lemma_delete_merges_lines(lines: Seq<Seq<Seq<char>>>, y: int)
    requires
        0 <= y,
        y + 1 < lines.len(),
    ensures
        doc_delete(lines, lines[y].len() as int, y).len() == lines.len() - 1,
        doc_delete(lines, lines[y].len() as int, y)[y] == lines[y] + lines[y + 1],
{
}

} // verus!
