//! Source files and their lines.

use crate::span::FileIdx;
use vstd::prelude::*;
use vstd::string::*;

verus! {

/// The byte of a line feed.
pub const LINE_FEED: u8 = 10;

/// The starts of the lines that begin behind a line feed among the first
/// `n` bytes, in their order.
pub open spec fn breaks(bytes: Seq<u8>, n: int) -> Seq<usize>
    decreases n,
{
    if n <= 0 || n > bytes.len() {
        Seq::empty()
    } else if bytes[n - 1] == LINE_FEED {
        breaks(bytes, n - 1).push(n as usize)
    } else {
        breaks(bytes, n - 1)
    }
}

/// The byte index at which each line of a text starts: the first line at
/// zero, every other line behind a line feed.
pub open spec fn line_starts_of(bytes: Seq<u8>) -> Seq<usize> {
    seq![0usize] + breaks(bytes, bytes.len() as int)
}

/// Whether the numbers grow from each to the next.
pub open spec fn increasing(s: Seq<usize>) -> bool {
    forall|i: int, j: int| 0 <= i < j < s.len() ==> s[i] < s[j]
}

/// The starts of the lines behind line feeds grow, and lie between one and
/// the number of the bytes that were looked at.
pub proof fn lemma_breaks(bytes: Seq<u8>, n: int)
    requires
        n <= bytes.len() <= usize::MAX,
    ensures
        increasing(breaks(bytes, n)),
        breaks(bytes, n).len() <= if n < 0 {
            0
        } else {
            n
        },
        forall|i: int| 0 <= i < breaks(bytes, n).len() ==> 1 <= #[trigger] breaks(bytes, n)[i] <= n,
    decreases n,
{
    if n > 0 {
        lemma_breaks(bytes, n - 1);
    }
}

/// The starts of the lines of a text grow from zero.
pub proof fn lemma_line_starts(bytes: Seq<u8>)
    requires
        bytes.len() <= usize::MAX,
    ensures
        increasing(line_starts_of(bytes)),
        1 <= line_starts_of(bytes).len() <= bytes.len() + 1,
        line_starts_of(bytes)[0] == 0,
        forall|i: int|
            0 <= i < line_starts_of(bytes).len() ==> #[trigger] line_starts_of(bytes)[i] <= bytes.len(),
{
    lemma_breaks(bytes, bytes.len() as int);
}

/// `codespan_reporting::files::line_starts`, collected: zero, and behind it
/// the index behind every line feed of the text, in their order.
#[verifier::external_body]
fn line_starts(src: &str) -> (res: Vec<usize>)
    ensures
        res@ == line_starts_of(src.spec_bytes()),
{
    codespan_reporting::files::line_starts(src).collect()
}

/// The line that a byte lies in, among lines that start at the given
/// indices: the last line that starts at the byte or before it.
pub open spec fn line_of(starts: Seq<usize>, byte_index: usize, below: int) -> int
    decreases below,
{
    if below <= 1 || below > starts.len() {
        0
    } else if starts[below - 1] <= byte_index {
        below - 1
    } else {
        line_of(starts, byte_index, below - 1)
    }
}

/// The line of a byte starts at the byte or before it, and the next line
/// behind it.
pub proof fn lemma_line_of(starts: Seq<usize>, byte_index: usize, below: int)
    requires
        increasing(starts),
        1 <= below <= starts.len(),
        starts[0] == 0,
    ensures
        0 <= line_of(starts, byte_index, below) < below,
        starts[line_of(starts, byte_index, below)] <= byte_index,
        forall|j: int| line_of(starts, byte_index, below) < j < below ==> byte_index < starts[j],
    decreases below,
{
    if below > 1 && starts[below - 1] > byte_index {
        lemma_line_of(starts, byte_index, below - 1);
    }
}

/// A line that starts at the byte or before it, with every later line
/// behind the byte, is the line of the byte.
pub proof fn lemma_line_of_unique(starts: Seq<usize>, byte_index: usize, below: int, line: int)
    requires
        increasing(starts),
        1 <= below <= starts.len(),
        0 <= line < below,
        starts[line] <= byte_index,
        forall|j: int| line < j < below ==> byte_index < starts[j],
    ensures
        line_of(starts, byte_index, below) == line,
    decreases below,
{
    if below > 1 && starts[below - 1] > byte_index {
        lemma_line_of_unique(starts, byte_index, below - 1, line);
    }
}

/// A source text with the starts of its lines.
pub struct SourceFile {
    src: String,
    line_starts: Vec<usize>,
}

impl SourceFile {
    pub closed spec fn text(&self) -> Seq<char> {
        self.src@
    }

    /// The bytes of the text.
    pub open spec fn bytes(&self) -> Seq<u8> {
        vstd::utf8::encode_utf8(self.text())
    }

    pub closed spec fn starts(&self) -> Seq<usize> {
        self.line_starts@
    }

    /// The invariant: the recorded starts are those of the lines of the
    /// text.
    pub open spec fn wf(&self) -> bool {
        &&& self.starts() == line_starts_of(self.bytes())
        &&& self.bytes().len() <= usize::MAX
    }

    pub fn new(src: &str) -> (file: SourceFile)
        ensures
            file.wf(),
            file.text() == src@,
            file.bytes() == src.spec_bytes(),
            file.starts() == line_starts_of(src.spec_bytes()),
    {
        let n = src.as_bytes().len();
        assert(src.spec_bytes().len() == n);
        let owned = src.to_owned();
        SourceFile { src: owned, line_starts: line_starts(src) }
    }

    /// The text.
    pub fn source(&self) -> (s: &str)
        ensures
            s@ == self.text(),
    {
        self.src.as_str()
    }

    /// The byte index at which a line starts. The line behind the last
    /// line starts at the end of the text; no line lies further behind.
    pub fn line_start(&self, line_index: usize) -> (r: Option<usize>)
        requires
            self.wf(),
        ensures
            r == if line_index < self.starts().len() {
                Some(self.starts()[line_index as int])
            } else if line_index == self.starts().len() {
                Some(self.bytes().len() as usize)
            } else {
                None
            },
    {
        let n = self.line_starts.len();
        if line_index < n {
            Some(self.line_starts[line_index])
        } else if line_index == n {
            Some(self.src.as_str().len())
        } else {
            None
        }
    }

    /// The line that a byte lies in: the last line that starts at the byte
    /// or before it.
    pub fn line_index(&self, byte_index: usize) -> (line: usize)
        requires
            self.wf(),
        ensures
            line == line_of(self.starts(), byte_index, self.starts().len() as int),
            line < self.starts().len(),
            self.starts()[line as int] <= byte_index,
            forall|j: int| line < j < self.starts().len() ==> byte_index < self.starts()[j],
    {
        proof {
            lemma_line_starts(self.bytes());
        }
        let starts = &self.line_starts;
        // the line lies in lo..hi
        let mut lo: usize = 0;
        let mut hi: usize = starts.len();
        while hi - lo > 1
            invariant
                starts@ == self.starts(),
                increasing(starts@),
                0 <= lo < hi <= starts@.len(),
                starts@[lo as int] <= byte_index,
                forall|j: int| hi <= j < starts@.len() ==> byte_index < starts@[j],
            decreases hi - lo,
        {
            let mid = lo + (hi - lo) / 2;
            if starts[mid] <= byte_index {
                lo = mid;
            } else {
                hi = mid;
            }
        }
        proof {
            lemma_line_of_unique(starts@, byte_index, starts@.len() as int, lo as int);
        }
        lo
    }

    /// The bytes of a line: from its start up to the start of the next
    /// line, or up to the end of the text.
    pub fn line_range(&self, line_index: usize) -> (r: Option<(usize, usize)>)
        requires
            self.wf(),
        ensures
            r == if line_index < self.starts().len() {
                Some(
                    (
                        self.starts()[line_index as int],
                        if line_index + 1 < self.starts().len() {
                            self.starts()[line_index + 1]
                        } else {
                            self.bytes().len() as usize
                        },
                    ),
                )
            } else {
                None
            },
            r matches Some(range) ==> range.0 <= range.1 <= self.bytes().len(),
    {
        proof {
            lemma_line_starts(self.bytes());
        }
        if line_index >= self.line_starts.len() {
            return None;
        }
        let start = self.line_start(line_index);
        let next = self.line_start(line_index + 1);
        match (start, next) {
            (Some(a), Some(b)) => Some((a, b)),
            _ => None,
        }
    }
}

/// The source files of a session.
pub struct SourceMap {
    pub files: Vec<SourceFile>,
}

impl SourceMap {
    pub open spec fn wf(&self) -> bool {
        forall|i: int| 0 <= i < self.files@.len() ==> (#[trigger] self.files@[i]).wf()
    }

    /// The map of one source text: the empty file that spans belong to
    /// when nothing else is said, and the file of the text behind it.
    pub fn new(src: &str) -> (map: SourceMap)
        ensures
            map.wf(),
            map.files@.len() == 2,
            map.files@[0].text() == Seq::<char>::empty(),
            map.files@[1].text() == src@,
    {
        let mut files: Vec<SourceFile> = Vec::new();
        let empty = SourceFile::new("");
        proof {
            reveal_strlit("");
            assert(empty.text() =~= Seq::<char>::empty());
        }
        files.push(empty);
        files.push(SourceFile::new(src));
        SourceMap { files }
    }

    /// The text of a file, if the map holds the file.
    pub fn source(&self, id: FileIdx) -> (s: Option<&str>)
        ensures
            s is Some <==> id.0 < self.files@.len(),
            s matches Some(text) ==> text@ == self.files@[id.0 as int].text(),
    {
        if id.0 < self.files.len() {
            Some(self.files[id.0].source())
        } else {
            None
        }
    }

    /// The line of a file that a byte lies in, if the map holds the file.
    pub fn line_index(&self, id: FileIdx, byte_index: usize) -> (r: Option<usize>)
        requires
            self.wf(),
        ensures
            r == if id.0 < self.files@.len() {
                let starts = self.files@[id.0 as int].starts();
                Some(line_of(starts, byte_index, starts.len() as int) as usize)
            } else {
                None
            },
    {
        if id.0 < self.files.len() {
            Some(self.files[id.0].line_index(byte_index))
        } else {
            None
        }
    }

    /// The bytes of a line of a file, if the map holds the file and the
    /// file has the line.
    pub fn line_range(&self, id: FileIdx, line_index: usize) -> (r: Option<(usize, usize)>)
        requires
            self.wf(),
        ensures
            id.0 >= self.files@.len() ==> r is None,
            id.0 < self.files@.len() ==> ({
                let file = self.files@[id.0 as int];
                r == if line_index < file.starts().len() {
                    Some(
                        (
                            file.starts()[line_index as int],
                            if line_index + 1 < file.starts().len() {
                                file.starts()[line_index + 1]
                            } else {
                                file.bytes().len() as usize
                            },
                        ),
                    )
                } else {
                    None
                }
            }),
    {
        if id.0 < self.files.len() {
            self.files[id.0].line_range(line_index)
        } else {
            None
        }
    }
}

} // verus!
