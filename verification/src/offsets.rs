//! The line-offset index: one sequential scan of a file's bytes records
//! where every line starts, so any range of lines can later be read by
//! seeking straight to its bytes.
//!
//! The scan is incremental: the caller feeds the file's bytes in chunks
//! of any size and then seals the index. A trailing newline would record
//! one start past the end of the data; sealing drops that phantom start
//! (unless it is the only one), so a final newline does not manufacture
//! an empty last line.

use vstd::prelude::*;

use vstd::slice::slice_subrange;

verus! {

/// Every recorded line start of `data` before sealing: offset 0 always,
/// then the offset just past each newline byte, in increasing order.
pub open spec fn raw_starts(data: Seq<u8>) -> Seq<int>
    decreases data.len(),
{
    if data.len() == 0 {
        seq![0int]
    } else {
        raw_starts(data.drop_last()) + if data.last() == 10 {
            seq![data.len() as int]
        } else {
            Seq::empty()
        }
    }
}

/// The sealed line starts of `data`: the raw starts, with a trailing
/// start that points past the end dropped when it is not the only one.
pub open spec fn final_starts(data: Seq<u8>) -> Seq<int> {
    let r = raw_starts(data);
    if r.len() > 1 && r.last() >= data.len() {
        r.drop_last()
    } else {
        r
    }
}

proof fn lemma_raw_starts_props(data: Seq<u8>)
    ensures
        raw_starts(data).len() >= 1,
        raw_starts(data)[0] == 0,
        forall|i: int| 0 <= i < raw_starts(data).len() ==> 0 <= #[trigger] raw_starts(data)[i]
            <= data.len(),
        forall|i: int, j: int| 0 <= i < j < raw_starts(data).len() ==> raw_starts(data)[i]
            < raw_starts(data)[j],
    decreases data.len(),
{
    if data.len() > 0 {
        lemma_raw_starts_props(data.drop_last());
    }
}

proof fn lemma_final_starts_props(data: Seq<u8>)
    ensures
        final_starts(data).len() >= 1,
        final_starts(data)[0] == 0,
        forall|i: int| 0 <= i < final_starts(data).len() ==> 0 <= #[trigger] final_starts(data)[i]
            <= data.len(),
        forall|i: int, j: int| 0 <= i < j < final_starts(data).len() ==> final_starts(data)[i]
            < final_starts(data)[j],
{
    lemma_raw_starts_props(data);
}

/// What one line's decoded text is before the terminator is stripped:
/// everything here names the result of the lossy decoding, which depends
/// on the bytes alone.
pub uninterp spec fn lossy_utf8(b: Seq<u8>) -> Seq<char>;

/// Relies on String::from_utf8_lossy: the decoding of a byte sequence is
/// a function of the bytes alone, and an empty input decodes to the
/// empty string.
#[verifier::external_body]
fn lossy_decode(b: &[u8]) -> (r: String)
    ensures
        r@ == lossy_utf8(b@),
        b@.len() == 0 ==> r@.len() == 0,
{
    String::from_utf8_lossy(b).into_owned()
}

/// One trailing line terminator removed: `\r\n` or `\n`, at most once.
pub open spec fn strip_eol(s: Seq<char>) -> Seq<char> {
    if s.len() >= 2 && s[s.len() - 1] == '\n' && s[s.len() - 2] == '\r' {
        s.take(s.len() - 2)
    } else if s.len() >= 1 && s[s.len() - 1] == '\n' {
        s.take(s.len() - 1)
    } else {
        s
    }
}

fn strip_line_end(s: String) -> (r: String)
    ensures
        r@ == strip_eol(s@),
{
    let st = s.as_str();
    let n = st.unicode_len();
    if n >= 1 && st.get_char(n - 1) == '\n' {
        if n >= 2 && st.get_char(n - 2) == '\r' {
            String::from_str(st.substring_char(0, n - 2))
        } else {
            String::from_str(st.substring_char(0, n - 1))
        }
    } else {
        s
    }
}

/// Where line `i` ends: the next line's start, or the end of the data
/// for the last line.
pub open spec fn line_end(starts: Seq<int>, size: int, i: int) -> int {
    if i + 1 < starts.len() {
        starts[i + 1]
    } else {
        size
    }
}

/// The text of line `i` of `data`: its byte span decoded lossily, with
/// one trailing terminator stripped.
pub open spec fn spec_line(data: Seq<u8>, i: int) -> Seq<char> {
    let starts = final_starts(data);
    strip_eol(lossy_utf8(data.subrange(starts[i], line_end(starts, data.len() as int, i))))
}

/// An index under construction: the starts recorded so far over the
/// bytes fed so far.
pub struct OffsetScanner {
    offsets: Vec<u64>,
    scanned: u64,
    processed: Ghost<Seq<u8>>,
}

proof fn lemma_raw_starts_push(p: Seq<u8>, b: u8)
    ensures
        raw_starts(p.push(b)) == raw_starts(p) + (if b == 10 {
            seq![(p.len() + 1) as int]
        } else {
            Seq::<int>::empty()
        }),
{
    assert(p.push(b).drop_last() =~= p);
    assert(p.push(b).last() == b);
}

impl OffsetScanner {
    /// The bytes fed so far.
    pub closed spec fn spec_processed(&self) -> Seq<u8> {
        self.processed@
    }

    /// The scanner's starts are exactly the raw starts of what it has
    /// been fed.
    pub closed spec fn wf(&self) -> bool {
        self.scanned == self.processed@.len() && self.offsets@.map_values(|x: u64| x as int)
            == raw_starts(self.processed@)
    }

    /// A scanner that has seen nothing: one start, at offset zero.
    pub fn begin() -> (r: OffsetScanner)
        ensures
            r.wf(),
            r.spec_processed() == Seq::<u8>::empty(),
    {
        let mut offsets: Vec<u64> = Vec::new();
        offsets.push(0u64);
        proof {
            assert(offsets@.map_values(|x: u64| x as int) =~= raw_starts(Seq::<u8>::empty()));
        }
        OffsetScanner { offsets, scanned: 0, processed: Ghost(Seq::empty()) }
    }

    /// Feeds the next chunk of the file: records one start just past
    /// every newline byte in it.
    pub fn feed(&mut self, chunk: &[u8])
        requires
            old(self).wf(),
            old(self).spec_processed().len() + chunk@.len() <= u64::MAX,
        ensures
            final(self).wf(),
            final(self).spec_processed() == old(self).spec_processed() + chunk@,
    {
        broadcast use Seq::lemma_push_map_commute;

        let ghost p0 = self.processed@;
        let n = chunk.len();
        let mut i: usize = 0;
        proof {
            assert(p0 + chunk@.take(0) =~= p0);
        }
        while i < n
            invariant
                0 <= i <= n == chunk@.len(),
                self.scanned == p0.len(),
                p0.len() + n <= u64::MAX,
                self.processed@ == p0,
                self.offsets@.map_values(|x: u64| x as int) == raw_starts(p0 + chunk@.take(i as int)),
            decreases n - i,
        {
            proof {
                assert(p0 + chunk@.take(i + 1) =~= (p0 + chunk@.take(i as int)).push(
                    chunk@[i as int],
                ));
                lemma_raw_starts_push(p0 + chunk@.take(i as int), chunk@[i as int]);
            }
            if chunk[i] == 10 {
                let start: u64 = self.scanned + (i as u64) + 1;
                self.offsets.push(start);
                proof {
                    assert(raw_starts(p0 + chunk@.take(i + 1)) =~= raw_starts(
                        p0 + chunk@.take(i as int),
                    ).push(start as int));
                }
            } else {
                proof {
                    assert(raw_starts(p0 + chunk@.take(i + 1)) =~= raw_starts(
                        p0 + chunk@.take(i as int),
                    ));
                }
            }
            i = i + 1;
        }
        self.scanned = self.scanned + (n as u64);
        self.processed = Ghost(p0 + chunk@);
        proof {
            assert(p0 + chunk@.take(n as int) =~= p0 + chunk@);
        }
    }

    /// Seals the index for `path`: drops the trailing phantom start left
    /// by a final newline, unless it is the only start.
    pub fn finish(self, path: String) -> (r: LineOffsetIndex)
        requires
            self.wf(),
        ensures
            r.consistent_with(self.spec_processed()),
            r.spec_path() == path,
    {
        let OffsetScanner { mut offsets, scanned, processed } = self;
        let ghost data = processed@;
        if offsets.len() > 1 {
            let last = offsets[offsets.len() - 1];
            if last >= scanned {
                proof {
                    assert(offsets@.drop_last().map_values(|x: u64| x as int) =~= offsets@
                        .map_values(|x: u64| x as int).drop_last());
                }
                offsets.pop();
            }
        }
        proof {
            assert(offsets@.map_values(|x: u64| x as int) == final_starts(data));
        }
        LineOffsetIndex { path, offsets, total_size: scanned }
    }
}

/// A sealed index over one file: the byte offset of every line start,
/// and the file's total size.
pub struct LineOffsetIndex {
    /// The file this index was built for.
    pub path: String,
    offsets: Vec<u64>,
    total_size: u64,
}

impl LineOffsetIndex {
    /// The file this index was built for.
    pub closed spec fn spec_path(&self) -> String {
        self.path
    }

    /// The recorded line starts.
    pub closed spec fn spec_offsets(&self) -> Seq<int> {
        self.offsets@.map_values(|x: u64| x as int)
    }

    /// The recorded file size in bytes.
    pub closed spec fn spec_size(&self) -> int {
        self.total_size as int
    }

    /// Whether this index describes `data`: same size, and exactly the
    /// sealed line starts of those bytes.
    pub open spec fn consistent_with(&self, data: Seq<u8>) -> bool {
        self.spec_size() == data.len() && self.spec_offsets() == final_starts(data)
    }

    /// Builds the index over bytes held in memory in one step. An empty
    /// file has one (empty) line: offset zero is always recorded.
    pub fn from_bytes(path: String, data: &[u8]) -> (r: LineOffsetIndex)
        ensures
            r.consistent_with(data@),
            r.spec_path() == path,
    {
        // Binding the length tells the verifier that the byte count fits
        // in usize, and so under the scanner's limit.
        let n = data.len();
        proof {
            assert(data@.len() == n);
        }
        let mut sc = OffsetScanner::begin();
        sc.feed(data);
        sc.finish(path)
    }

    /// How many lines the file has: the number of recorded starts.
    pub fn get_total_lines(&self) -> (r: u64)
        ensures
            r as int == self.spec_offsets().len(),
    {
        self.offsets.len() as u64
    }

    /// The byte span of line `i`: its recorded start, up to the next
    /// start or the end of the file.
    pub fn line_span(&self, i: u64) -> (r: (u64, u64))
        requires
            (i as int) < self.spec_offsets().len(),
        ensures
            r.0 as int == self.spec_offsets()[i as int],
            r.1 as int == line_end(self.spec_offsets(), self.spec_size(), i as int),
    {
        let n = self.offsets.len();
        proof {
            assert((i as int) < (n as int));
        }
        let iu = i as usize;
        let start = self.offsets[iu];
        let end = if iu + 1 < n {
            self.offsets[iu + 1]
        } else {
            self.total_size
        };
        (start, end)
    }

    /// Reads lines `start_line_index .. start_line_index + count` out of
    /// the file's bytes, clamped to the lines that exist: each line's
    /// span is decoded lossily and one trailing terminator is stripped.
    /// A start index at or past the line count yields no lines at all.
    pub fn read_lines(&self, data: &[u8], start_line_index: u64, count: u64) -> (r: Vec<String>)
        ensures
            r@.len() == (if start_line_index as int >= self.spec_offsets().len() {
                0int
            } else if start_line_index + count <= self.spec_offsets().len() {
                count as int
            } else {
                self.spec_offsets().len() - start_line_index
            }),
            start_line_index as int >= self.spec_offsets().len() ==> r@.len() == 0,
            self.consistent_with(data@) ==> forall|k: int| 0 <= k < r@.len() ==> #[trigger] r@[k]@
                == spec_line(data@, start_line_index + k),
    {
        let total = self.offsets.len() as u64;
        if start_line_index >= total {
            return Vec::new();
        }
        let end_line = if count <= total - start_line_index {
            start_line_index + count
        } else {
            total
        };
        let dn = data.len();
        proof {
            if self.consistent_with(data@) {
                lemma_final_starts_props(data@);
            }
        }
        let mut r: Vec<String> = Vec::new();
        let mut i: u64 = start_line_index;
        while i < end_line
            invariant
                start_line_index <= i <= end_line,
                end_line <= total == self.offsets@.len(),
                dn == data@.len(),
                r@.len() == i - start_line_index,
                self.consistent_with(data@) ==> forall|k: int| 0 <= k < r@.len()
                    ==> #[trigger] r@[k]@ == spec_line(data@, start_line_index + k),
            decreases end_line - i,
        {
            let (s_off, e_off) = self.line_span(i);
            let a64: u64 = if s_off < (dn as u64) {
                s_off
            } else {
                dn as u64
            };
            let b64: u64 = if e_off < (dn as u64) {
                e_off
            } else {
                dn as u64
            };
            let a = a64 as usize;
            let b = if b64 >= a64 {
                b64 as usize
            } else {
                a64 as usize
            };
            proof {
                if self.consistent_with(data@) {
                    lemma_final_starts_props(data@);
                    assert(a == self.spec_offsets()[i as int]);
                    assert(b == line_end(self.spec_offsets(), self.spec_size(), i as int));
                }
            }
            let piece = slice_subrange(data, a, b);
            let line = strip_line_end(lossy_decode(piece));
            r.push(line);
            i = i + 1;
        }
        r
    }
}

} // verus!
