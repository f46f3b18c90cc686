//! An indexed in-memory file buffer.
//!
//! The buffer keeps a file's raw bytes together with the byte offset at which
//! each line starts, so that any line range can be served without rescanning
//! the content.  Lines are one-indexed; line `k + 1` starts right after the
//! `k`-th newline byte.

use vstd::prelude::*;
use crate::text;

verus! {

use vstd::utf8::{valid_utf8, decode_utf8};

/// The offsets right after each newline byte of `c`, in ascending order.
pub open spec fn nl_offsets(c: Seq<u8>) -> Seq<u32>
    decreases c.len(),
{
    if c.len() == 0 {
        Seq::empty()
    } else if c.last() == 10 {
        nl_offsets(c.drop_last()).push(c.len() as u32)
    } else {
        nl_offsets(c.drop_last())
    }
}

/// The line-start index of `c`: offset zero for the first line, then one
/// offset per newline byte.
pub open spec fn line_starts(c: Seq<u8>) -> Seq<u32> {
    seq![0u32] + nl_offsets(c)
}

pub proof fn lemma_nl_offsets_bounds(c: Seq<u8>)
    requires
        c.len() <= u32::MAX,
    ensures
        nl_offsets(c).len() <= c.len(),
        forall|k: int|
            0 <= k < nl_offsets(c).len() ==> 1 <= #[trigger] nl_offsets(c)[k] <= c.len(),
        forall|k: int, l: int|
            0 <= k < l < nl_offsets(c).len() ==> nl_offsets(c)[k] < nl_offsets(c)[l],
    decreases c.len(),
{
    if c.len() > 0 {
        let dl = c.drop_last();
        lemma_nl_offsets_bounds(dl);
        if c.last() == 10 {
            assert(nl_offsets(c) == nl_offsets(dl).push(c.len() as u32));
            assert(c.len() as u32 as int == c.len());
            assert(forall|k: int|
                0 <= k < nl_offsets(dl).len() ==> #[trigger] nl_offsets(c)[k] == nl_offsets(
                    dl,
                )[k]);
        }
    }
}

/// A file held in memory with its line index.
pub struct FileBuffer {
    pub content: Vec<u8>,
    pub line_offsets: Vec<u32>,
}

impl FileBuffer {
    /// The line index matches the content, whose size fits the 32-bit
    /// offsets.
    pub open spec fn wf(self) -> bool {
        &&& self.content@.len() <= u32::MAX
        &&& self.line_offsets@ == line_starts(self.content@)
    }

    /// Build a buffer over `content` and index all of its lines.
    pub fn new(content: Vec<u8>) -> (r: Result<FileBuffer, String>)
        requires
            content@.len() <= u32::MAX,
        ensures
            r is Ok,
            r->Ok_0.wf(),
            r->Ok_0.content == content,
    {
        let line_offsets = Self::index_lines(&content);
        Ok(FileBuffer { content, line_offsets })
    }

    /// Scan the content once and record where each line starts.
    pub fn index_lines(content: &Vec<u8>) -> (r: Vec<u32>)
        requires
            content@.len() <= u32::MAX,
        ensures
            r@ == line_starts(content@),
    {
        let mut offsets: Vec<u32> = Vec::new();
        offsets.push(0);
        let n = content.len();
        let mut i: usize = 0;
        assert(offsets@ =~= seq![0u32] + nl_offsets(content@.take(0)));
        while i < n
            invariant
                i <= n == content@.len() <= u32::MAX,
                offsets@ == seq![0u32] + nl_offsets(content@.take(i as int)),
            decreases n - i,
        {
            let ghost pre = content@.take(i as int);
            let ghost cur = content@.take(i + 1);
            proof {
                assert(cur.drop_last() =~= pre);
                assert(cur.last() == content@[i as int]);
            }
            if content[i] == 10 {
                offsets.push((i + 1) as u32);
                proof {
                    assert(offsets@ =~= seq![0u32] + nl_offsets(cur));
                }
            }
            i = i + 1;
        }
        proof {
            assert(content@.take(n as int) =~= content@);
        }
        offsets
    }

    /// How many lines the buffer holds: one per newline byte, plus a final
    /// line when the content does not end in a newline.
    pub open spec fn line_count_spec(self) -> int {
        if self.content@.len() > 0 && self.content@.last() != 10 {
            self.line_offsets@.len() as int
        } else {
            self.line_offsets@.len() - 1
        }
    }

    /// The byte range `[start, end)` of one line, the trailing newline
    /// included; the final line ends at the end of the content.
    pub open spec fn line_byte_range_spec(self, line_num: int) -> (int, int) {
        let off = self.line_offsets@;
        (
            off[line_num - 1] as int,
            if line_num < off.len() {
                off[line_num] as int
            } else {
                self.content@.len() as int
            },
        )
    }

    /// Whether a one-indexed line number addresses a line of this buffer.
    pub open spec fn line_in_range(self, line_num: int) -> bool {
        1 <= line_num <= self.line_count_spec()
    }

    /// Look up the byte range of one line; out-of-range numbers are reported,
    /// not clamped.
    pub fn get_line_byte_range(&self, line_num: usize) -> (r: Result<(usize, usize), String>)
        requires
            self.wf(),
        ensures
            r is Ok <==> self.line_in_range(line_num as int),
            r is Ok ==> {
                let (s, e) = self.line_byte_range_spec(line_num as int);
                r->Ok_0.0 == s && r->Ok_0.1 == e && s <= e <= self.content@.len()
            },
    {
        proof {
            lemma_nl_offsets_bounds(self.content@);
        }
        let line_count = self.line_count();
        if line_num == 0 || line_num > line_count {
            return Err(Self::line_range_error(line_num, line_count));
        }
        let start = self.line_offsets[line_num - 1] as usize;
        let end = if line_num < self.line_offsets.len() {
            self.line_offsets[line_num] as usize
        } else {
            self.content.len()
        };
        proof {
            let off = self.line_offsets@;
            if line_num < off.len() {
                assert(off[line_num as int] == nl_offsets(self.content@)[line_num - 1]);
            }
            if line_num >= 2 {
                assert(off[line_num - 1] == nl_offsets(self.content@)[line_num - 2]);
            }
        }
        Ok((start, end))
    }

    /// The out-of-range report: the offending line number and the line count.
    pub open spec fn line_range_error_spec(line_num: int, line_count: int) -> Seq<char> {
        ("Line ")@ + text::dec_rep(line_num as nat) + (" out of range (file has ")@
            + text::dec_rep(line_count as nat) + (" lines)")@
    }

    fn line_range_error(line_num: usize, line_count: usize) -> (r: String)
        ensures
            r@ == Self::line_range_error_spec(line_num as int, line_count as int),
    {
        let mut s = String::from_str("Line ");
        s.append(text::fmt_u64(line_num as u64).as_str());
        s.append(" out of range (file has ");
        s.append(text::fmt_u64(line_count as u64).as_str());
        s.append(" lines)");
        s
    }

    /// Serve the lines `start_line..=end_line` as one UTF-8 string.
    pub fn get_line_range(&self, start_line: usize, end_line: usize) -> (r: Result<String, String>)
        requires
            self.wf(),
        ensures
            r is Ok ==> start_line >= 1 && start_line <= end_line && self.line_in_range(
                start_line as int,
            ) && self.line_in_range(end_line as int),
            r is Ok ==> {
                let sb = self.line_byte_range_spec(start_line as int).0;
                let eb = self.line_byte_range_spec(end_line as int).1;
                let bytes = self.content@.subrange(sb, eb);
                valid_utf8(bytes) && r->Ok_0@ == decode_utf8(bytes)
            },
            (start_line >= 1 && start_line <= end_line && self.line_in_range(start_line as int)
                && self.line_in_range(end_line as int) && valid_utf8(
                self.content@.subrange(
                    self.line_byte_range_spec(start_line as int).0,
                    self.line_byte_range_spec(end_line as int).1,
                ),
            )) ==> r is Ok,
    {
        if start_line == 0 {
            return Err(String::from_str("Line numbers are 1-indexed"));
        }
        if start_line > end_line {
            let mut s = String::from_str("Invalid range: start ");
            s.append(text::fmt_u64(start_line as u64).as_str());
            s.append(" > end ");
            s.append(text::fmt_u64(end_line as u64).as_str());
            return Err(s);
        }
        let start_byte = match self.get_line_byte_range(start_line) {
            Ok(range) => range.0,
            Err(e) => {
                return Err(e);
            },
        };
        let end_byte = match self.get_line_byte_range(end_line) {
            Ok(range) => range.1,
            Err(e) => {
                return Err(e);
            },
        };
        proof {
            lemma_nl_offsets_bounds(self.content@);
            let off = self.line_offsets@;
            if start_line >= 2 {
                assert(off[start_line - 1] == nl_offsets(self.content@)[start_line - 2]);
            }
            if (end_line as int) < off.len() - 1 {
                assert(off[end_line as int] == nl_offsets(self.content@)[end_line - 1]);
            }
        }
        let mut slice: Vec<u8> = Vec::new();
        let mut i = start_byte;
        while i < end_byte
            invariant
                start_byte <= i <= end_byte <= self.content@.len(),
                slice@ =~= self.content@.subrange(start_byte as int, i as int),
            decreases end_byte - i,
        {
            slice.push(self.content[i]);
            assert(slice@ =~= self.content@.subrange(start_byte as int, i + 1 as int));
            i = i + 1;
        }
        bytes_to_utf8(&slice)
    }

    /// How many lines the buffer holds.
    pub fn line_count(&self) -> (r: usize)
        requires
            self.wf(),
        ensures
            r == self.line_count_spec(),
    {
        proof {
            lemma_nl_offsets_bounds(self.content@);
        }
        let n = self.content.len();
        if n > 0 && self.content[n - 1] != 10 {
            self.line_offsets.len()
        } else {
            self.line_offsets.len() - 1
        }
    }

    /// Size, line count and index footprint of the buffer.  The index
    /// footprint saturates at the platform word; every real index is far
    /// below it.
    pub fn get_stats(&self) -> (r: FileStats)
        requires
            self.wf(),
        ensures
            r.size == self.content@.len(),
            r.line_count == self.line_count_spec(),
            r.index_size == 4 * self.line_offsets@.len() || r.index_size == usize::MAX,
    {
        proof {
            lemma_nl_offsets_bounds(self.content@);
        }
        let idx: u64 = 4 * (self.line_offsets.len() as u64);
        let index_size: usize = if idx > usize::MAX as u64 {
            usize::MAX
        } else {
            idx as usize
        };
        FileStats { size: self.content.len(), line_count: self.line_count(), index_size }
    }
}

/// The statistics one buffer reports.
#[derive(Debug, Clone, PartialEq)]
pub struct FileStats {
    pub size: usize,
    pub line_count: usize,
    pub index_size: usize,
}

/// One search hit: the one-indexed line, the byte column of the match start,
/// and the text of the whole line.
#[derive(Debug, Clone)]
pub struct SearchMatch {
    pub line: usize,
    pub column: usize,
    pub text: String,
}

/// The metadata handed to a host that just loaded a file.
#[derive(Debug, Clone)]
pub struct FileInfo {
    pub size: usize,
    pub line_count: usize,
    pub encoding: String,
    pub index_size: usize,
}

/// What lossy UTF-8 decoding makes of a byte string: a function of the bytes
/// alone, with invalid sequences replaced.
pub uninterp spec fn utf8_lossy(b: Seq<u8>) -> Seq<char>;

/// Whether a text parses as a JSON document.
pub uninterp spec fn json_parses(s: Seq<char>) -> bool;

/// Relies on `String::from_utf8_lossy`: the result depends on the bytes
/// alone, and on valid UTF-8 it is the plain decoding.
#[verifier::external_body]
fn lossy_string(v: &Vec<u8>) -> (r: String)
    ensures
        r@ == utf8_lossy(v@),
        valid_utf8(v@) ==> r@ == decode_utf8(v@),
{
    String::from_utf8_lossy(v).to_string()
}

/// Relies on `serde_json::from_str` for `serde_json::Value`: it accepts
/// exactly the well-formed JSON documents, a property of the text alone.
#[verifier::external_body]
fn json_check(s: &str) -> (r: Result<(), String>)
    ensures
        r is Ok <==> json_parses(s@),
{
    match serde_json::from_str::<serde_json::Value>(s) {
        Ok(_) => Ok(()),
        Err(e) => Err(e.to_string()),
    }
}

impl FileBuffer {
    /// Check that the buffer holds one well-formed JSON document, read with
    /// lossy UTF-8 decoding.
    pub fn validate_json(&self) -> (r: Result<(), String>)
        ensures
            r is Ok <==> json_parses(utf8_lossy(self.content@)),
    {
        let content_str = lossy_string(&self.content);
        json_check(content_str.as_str())
    }
}

/// Relies on `String::from_utf8`: it succeeds exactly on valid UTF-8 and
/// returns the decoded characters of the bytes.
#[verifier::external_body]
fn bytes_to_utf8(v: &Vec<u8>) -> (r: Result<String, String>)
    ensures
        r is Ok <==> valid_utf8(v@),
        r is Ok ==> r->Ok_0@ == decode_utf8(v@),
{
    match String::from_utf8(v.clone()) {
        Ok(s) => Ok(s),
        Err(e) => Err(e.to_string()),
    }
}

} // verus!
