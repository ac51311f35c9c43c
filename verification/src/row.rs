//! A single editable line of text, held as its sequence of grapheme
//! clusters together with a cached cluster count.
//!
//! Every operation indexes in grapheme clusters, so a multi-codepoint
//! character is one unit and is never split by an edit. The cached length
//! always equals the live cluster count; that is the line's invariant, and
//! every mutating operation re-establishes it.

use vstd::prelude::*;
use vstd::string::{StrSliceExecFns, StringExecFns};

use crate::min_usize;
use crate::text::{char_to_cluster, concat_all, grapheme_clusters, segment_graphemes};

verus! {

/// A line after inserting character `c` as its own cluster at `x`,
/// clamped to the end of the line.
pub open spec fn row_insert(s: Seq<Seq<char>>, x: int, c: char) -> Seq<Seq<char>> {
    if 0 <= x < s.len() {
        s.insert(x, seq![c])
    } else {
        s.push(seq![c])
    }
}

/// A line after deleting the cluster at `x`; out-of-range positions leave
/// the line unchanged.
pub open spec fn row_delete(s: Seq<Seq<char>>, x: int) -> Seq<Seq<char>> {
    if 0 <= x < s.len() {
        s.remove(x)
    } else {
        s
    }
}

/// The clusters a line keeps when split at `pos` (clamped to its length).
pub open spec fn row_split_left(s: Seq<Seq<char>>, pos: int) -> Seq<Seq<char>> {
    if pos <= s.len() {
        s.take(pos)
    } else {
        s
    }
}

/// The clusters handed to the new line when split at `pos`.
pub open spec fn row_split_right(s: Seq<Seq<char>>, pos: int) -> Seq<Seq<char>> {
    if pos <= s.len() {
        s.skip(pos)
    } else {
        Seq::empty()
    }
}

/// The first position at or after `i` where `q` occurs in `s` as a
/// contiguous run of whole clusters.
pub open spec fn row_find_from(s: Seq<Seq<char>>, q: Seq<Seq<char>>, i: int) -> Option<int>
    decreases s.len() - i,
{
    if i + q.len() > s.len() {
        None
    } else if q.len() == 0 || s.subrange(i, i + q.len()) == q {
        Some(i)
    } else {
        row_find_from(s, q, i + 1)
    }
}

/// The first position where `q` occurs in `s` as a contiguous run of
/// whole clusters.
pub open spec fn row_find(s: Seq<Seq<char>>, q: Seq<Seq<char>>) -> Option<int> {
    row_find_from(s, q, 0)
}

/// A single cluster as it is drawn: a tab becomes one space, every other
/// cluster is drawn as it is.
pub open spec fn cluster_rendered(g: Seq<char>) -> Seq<char> {
    if g == seq!['\t'] {
        seq![' ']
    } else {
        g
    }
}

/// The visible text of the clusters in `[start, end)`, clipped to the
/// line, with tabs drawn as spaces.
pub open spec fn rendered(s: Seq<Seq<char>>, start: int, end: int) -> Seq<char> {
    let e = if end <= s.len() {
        end
    } else {
        s.len() as int
    };
    let st = if start <= e {
        start
    } else {
        e
    };
    concat_all(s.subrange(st, e).map_values(|g: Seq<char>| cluster_rendered(g)))
}

/// One editable line: its grapheme clusters and a cached cluster count.
pub struct Row {
    clusters: Vec<String>,
    len: usize,
}

impl View for Row {
    type V = Seq<Seq<char>>;

    closed spec fn view(&self) -> Seq<Seq<char>> {
        self.clusters.deep_view()
    }
}

impl DeepView for Row {
    type V = Seq<Seq<char>>;

    open spec fn deep_view(&self) -> Seq<Seq<char>> {
        self.view()
    }
}

impl Default for Row {
    /// An empty line.
    fn default() -> (r: Self)
        ensures
            r@ == Seq::<Seq<char>>::empty(),
            r.wf(),
    {
        let r = Row { clusters: Vec::new(), len: 0 };
        proof {
            assert(r@ =~= Seq::<Seq<char>>::empty());
        }
        r
    }
}

impl Clone for Row {
    /// A copy with the same clusters and the same cached length.
    fn clone(&self) -> (r: Self)
        ensures
            r@ == self@,
            r.wf() == self.wf(),
    {
        let r = Row { clusters: self.clusters.clone(), len: self.len };
        proof {
            assert(r@ =~= self@);
        }
        r
    }
}

impl Row {
    /// The line's invariant: the cached length equals the live count of
    /// grapheme clusters.
    pub closed spec fn wf(&self) -> bool {
        self.len == self@.len()
    }

    /// A line holding the grapheme clusters of `slice`.
    pub fn from(slice: &str) -> (r: Row)
        ensures
            r@ == grapheme_clusters(slice@),
            concat_all(r@) == slice@,
            r.wf(),
    {
        let clusters = segment_graphemes(slice);
        let len = clusters.len();
        Row { clusters, len }
    }

    /// The number of grapheme clusters in the line.
    pub fn len(&self) -> (r: usize)
        requires
            self.wf(),
        ensures
            r == self@.len(),
    {
        self.len
    }

    /// Whether the line holds no clusters at all.
    pub fn is_empty(&self) -> (r: bool)
        requires
            self.wf(),
        ensures
            r == (self@.len() == 0),
    {
        self.len == 0
    }

    /// Inserts `c` as a cluster of its own at `x_position`; positions past
    /// the end append at the end.
    pub fn insert(&mut self, x_position: usize, c: char)
        requires
            old(self).wf(),
        ensures
            final(self).wf(),
            final(self)@ == row_insert(old(self)@, x_position as int, c),
    {
        let cluster = char_to_cluster(c);
        if x_position >= self.len {
            self.clusters.push(cluster);
            proof {
                assert(self@ =~= old(self)@.push(seq![c]));
            }
        } else {
            self.clusters.insert(x_position, cluster);
            proof {
                assert(self@ =~= old(self)@.insert(x_position as int, seq![c]));
            }
        }
        self.len = self.clusters.len();
    }

    /// Deletes the cluster at `at`; a position past the end changes
    /// nothing.
    pub fn delete(&mut self, at: usize)
        requires
            old(self).wf(),
        ensures
            final(self).wf(),
            final(self)@ == row_delete(old(self)@, at as int),
    {
        if at >= self.len {
            return ;
        }
        let _removed = self.clusters.remove(at);
        proof {
            assert(self@ =~= old(self)@.remove(at as int));
        }
        self.len = self.clusters.len();
    }

    /// Truncates the line to the clusters before `at` (clamped to the
    /// line) and returns a new line holding the clusters from `at` on.
    pub fn split(&mut self, at: usize) -> (r: Row)
        requires
            old(self).wf(),
        ensures
            final(self).wf(),
            r.wf(),
            final(self)@ == row_split_left(old(self)@, at as int),
            r@ == row_split_right(old(self)@, at as int),
    {
        let p = min_usize(at, self.clusters.len());
        let tail = self.clusters.split_off(p);
        self.len = self.clusters.len();
        let len = tail.len();
        let r = Row { clusters: tail, len };
        proof {
            assert(self@ =~= row_split_left(old(self)@, at as int));
            assert(r@ =~= row_split_right(old(self)@, at as int));
        }
        r
    }

    /// Concatenates the other line's clusters onto this line.
    pub fn append(&mut self, new: &Row)
        requires
            old(self).wf(),
        ensures
            final(self).wf(),
            final(self)@ == old(self)@ + new@,
    {
        let mut other = new.clusters.clone();
        proof {
            assert(other.deep_view() =~= new@);
        }
        self.clusters.append(&mut other);
        self.len = self.clusters.len();
        proof {
            assert(self@ =~= old(self)@ + new@);
        }
    }

    /// The position of the first occurrence of the query's clusters as a
    /// contiguous run of this line's clusters, if any.
    pub fn find_clusters(&self, query: &Vec<String>) -> (r: Option<usize>)
        requires
            self.wf(),
        ensures
            r matches Some(i) ==> row_find(self@, query.deep_view()) == Some(i as int),
            r is None ==> row_find(self@, query.deep_view()) is None,
    {
        let qlen = query.len();
        let n = self.clusters.len();
        if qlen == 0 {
            return Some(0);
        }
        if qlen > n {
            return None;
        }
        let mut i: usize = 0;
        while i <= n - qlen
            invariant
                self.wf(),
                n == self@.len(),
                qlen == query.deep_view().len(),
                1 <= qlen <= n,
                0 <= i <= n - qlen + 1,
                row_find(self@, query.deep_view()) == row_find_from(
                    self@,
                    query.deep_view(),
                    i as int,
                ),
            decreases n - qlen - i + 1,
        {
            if self.window_matches(query, i) {
                return Some(i);
            }
            proof {
                assert(row_find_from(self@, query.deep_view(), i as int) == row_find_from(
                    self@,
                    query.deep_view(),
                    i as int + 1,
                ));
            }
            i = i + 1;
        }
        proof {
            assert(row_find_from(self@, query.deep_view(), i as int) is None);
        }
        None
    }

    /// Whether the query's clusters stand at position `start` of this
    /// line.
    fn window_matches(&self, query: &Vec<String>, start: usize) -> (r: bool)
        requires
            self.wf(),
            start + query@.len() <= self@.len(),
        ensures
            r == (self@.subrange(start as int, start as int + query.deep_view().len() as int)
                == query.deep_view()),
    {
        let qlen = query.len();
        let ghost window = self@.subrange(start as int, start as int + query.deep_view().len() as int);
        let mut j: usize = 0;
        while j < qlen
            invariant
                self.wf(),
                qlen == query@.len(),
                start + qlen <= self@.len(),
                0 <= j <= qlen,
                window == self@.subrange(start as int, start as int + qlen as int),
                forall|k: int| 0 <= k < j ==> window[k] == query.deep_view()[k],
            decreases qlen - j,
        {
            if !(self.clusters[start + j] == query[j]) {
                proof {
                    assert(window[j as int] != query.deep_view()[j as int]);
                    assert(window != query.deep_view());
                }
                return false;
            }
            j = j + 1;
        }
        proof {
            assert(window =~= query.deep_view());
        }
        true
    }

    /// The position of the first occurrence of `query` in this line, as a
    /// grapheme index, matching whole clusters of the query's own
    /// segmentation.
    pub fn find(&self, query: &str) -> (r: Option<usize>)
        requires
            self.wf(),
        ensures
            r matches Some(i) ==> row_find(self@, grapheme_clusters(query@)) == Some(i as int),
            r is None ==> row_find(self@, grapheme_clusters(query@)) is None,
    {
        let q = segment_graphemes(query);
        self.find_clusters(&q)
    }

    /// The line's text, clusters concatenated in order.
    pub fn contents(&self) -> (r: String)
        requires
            self.wf(),
        ensures
            r@ == concat_all(self@),
    {
        let mut result = String::new();
        let mut i: usize = 0;
        while i < self.clusters.len()
            invariant
                self.wf(),
                0 <= i <= self.clusters@.len(),
                result@ == concat_all(self@.take(i as int)),
            decreases self.clusters@.len() - i,
        {
            result.append(self.clusters[i].as_str());
            proof {
                crate::text::lemma_concat_all_take(self@, i as int);
            }
            i = i + 1;
        }
        proof {
            assert(self@.take(self.clusters@.len() as int) =~= self@);
        }
        result
    }

    /// The line's text as its UTF-8 bytes.
    pub fn as_bytes(&self) -> (r: Vec<u8>)
        requires
            self.wf(),
        ensures
            r@ == vstd::utf8::encode_utf8(concat_all(self@)),
    {
        let s = self.contents();
        s.as_str().as_bytes_vec()
    }

    /// Whether the line's text equals `line` exactly.
    pub fn is_equal(&self, line: &str) -> (r: bool)
        requires
            self.wf(),
        ensures
            r == (concat_all(self@) == line@),
    {
        let own = self.contents();
        let other = line.to_owned();
        own == other
    }

    /// The visible slice of clusters in `[start, end)`, clipped to the
    /// line, with every tab cluster drawn as a single space.
    pub fn render(&self, start: usize, end: usize) -> (r: String)
        requires
            self.wf(),
        ensures
            r@ == rendered(self@, start as int, end as int),
    {
        let e = min_usize(end, self.clusters.len());
        let st = min_usize(start, e);
        let ghost drawn = self@.subrange(st as int, e as int).map_values(
            |g: Seq<char>| cluster_rendered(g),
        );
        let mut result = String::new();
        let mut i: usize = st;
        while i < e
            invariant
                self.wf(),
                st <= i <= e <= self@.len(),
                drawn == self@.subrange(st as int, e as int).map_values(
                    |g: Seq<char>| cluster_rendered(g),
                ),
                result@ == concat_all(drawn.take(i - st)),
            decreases e - i,
        {
            let g = &self.clusters[i];
            if is_tab_cluster(g) {
                result.append(" ");
                proof {
                    reveal_strlit(" ");
                    assert(" "@ =~= seq![' ']);
                }
            } else {
                result.append(g.as_str());
            }
            proof {
                assert(drawn[i - st] == cluster_rendered(self@[i as int]));
                crate::text::lemma_concat_all_take(drawn, i - st);
                assert(drawn.take(i - st + 1) == drawn.take(i + 1 - st));
            }
            i = i + 1;
        }
        proof {
            assert(drawn.take(e - st) =~= drawn);
        }
        result
    }
}

/// Whether a cluster is exactly one tab character.
fn is_tab_cluster(g: &String) -> (r: bool)
    ensures
        r == (g@ == seq!['\t']),
{
    let s = g.as_str();
    if s.unicode_len() == 1 {
        let c = s.get_char(0);
        proof {
            if c == '\t' {
                assert(g@ =~= seq!['\t']);
            }
        }
        c == '\t'
    } else {
        false
    }
}

/// A found match position lies at or after the anchor, and the whole
/// query fits in the line from there.
pub proof fn lemma_row_find_from_bounds(s: Seq<Seq<char>>, q: Seq<Seq<char>>, i: int)
    requires
        0 <= i,
    ensures
        row_find_from(s, q, i) matches Some(j) ==> i <= j && j + q.len() <= s.len(),
    decreases s.len() - i,
{
    if i + q.len() > s.len() {
    } else if q.len() == 0 || s.subrange(i, i + q.len()) == q {
    } else {
        lemma_row_find_from_bounds(s, q, i + 1);
    }
}

/// Law: inserting a character at any position of the line and deleting at
/// the same position restores the original content exactly.
pub proof fn lemma_insert_then_delete(s: Seq<Seq<char>>, pos: int, c: char)
    requires
        0 <= pos <= s.len(),
    ensures
        row_delete(row_insert(s, pos, c), pos) == s,
{
    assert(row_delete(row_insert(s, pos, c), pos) =~= s);
}

/// Law: splitting a line at any position and appending the returned
/// remainder reconstructs the original line exactly.
pub proof fn lemma_split_then_append(s: Seq<Seq<char>>, pos: int)
    requires
        0 <= pos <= s.len(),
    ensures
        row_split_left(s, pos) + row_split_right(s, pos) == s,
{
    assert(row_split_left(s, pos) + row_split_right(s, pos) =~= s);
}

} // verus!
