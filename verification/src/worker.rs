//! How the bytes of one file are got at: by reading the file as a stream,
//! or through a memory map.

use crate::text::{chars_of, string_of};
use vstd::prelude::*;
use vstd::slice::slice_subrange;

verus! {

/// What a worker is set up with.
#[derive(Clone, Copy, Debug, PartialEq, Eq, Structural)]
pub struct Options {
    /// Whether files are read through a memory map where that can be done.
    pub mmap: bool,
    /// The byte that ends a line.
    pub eol: u8,
}

impl Default for Options {
    /// No memory maps, and lines that end with a line feed.
    fn default() -> (o: Options)
        ensures
            o == (Options { mmap: false, eol: 0x0A }),
    {
        Options { mmap: false, eol: 0x0A }
    }
}

/// The file that a worker is handed.
#[derive(Debug)]
pub enum Work {
    /// A file that the walk found, by its path.
    DirEntry(String),
}

/// How a file is read.
#[derive(Clone, Copy, Debug, PartialEq, Eq, Structural)]
pub enum ReadPlan {
    /// By reading it from its beginning to its end.
    Stream,
    /// Through a memory map.
    Mmap,
}

/// Sets up a worker.
#[derive(Debug)]
pub struct WorkerBuilder {
    opts: Options,
}

/// Reads files, as a stream or through a memory map as appropriate.
#[derive(Debug)]
pub struct Worker {
    opts: Options,
}

impl WorkerBuilder {
    /// What the worker will be set up with.
    pub closed spec fn options(&self) -> Options {
        self.opts
    }

    /// A builder for a worker that uses no memory maps.
    pub fn new() -> (b: WorkerBuilder)
        ensures
            b.options() == (Options { mmap: false, eol: 0x0A }),
    {
        WorkerBuilder { opts: Options::default() }
    }

    /// The worker.
    pub fn build(self) -> (w: Worker)
        ensures
            w.options() == self.options(),
    {
        Worker { opts: self.opts }
    }

    /// If enabled, files are read through a memory map where that can be
    /// done.
    pub fn mmap(self, yes: bool) -> (b: WorkerBuilder)
        ensures
            b.options() == (Options { mmap: yes, ..self.options() }),
    {
        WorkerBuilder { opts: Options { mmap: yes, eol: self.opts.eol } }
    }
}

/// `path` without the `./` that it begins with, if it does.
pub open spec fn without_dot_slash(path: Seq<char>) -> Seq<char> {
    if path.len() >= 2 && path[0] == '.' && path[1] == '/' {
        path.skip(2)
    } else {
        path
    }
}

/// Whether `buf` begins with a byte order mark: that of UTF-8, or one of
/// the two of UTF-16.
pub open spec fn begins_with_bom(buf: Seq<u8>) -> bool {
    ||| buf.len() >= 3 && buf[0] == 0xEF && buf[1] == 0xBB && buf[2] == 0xBF
    ||| buf.len() >= 2 && buf[0] == 0xFE && buf[1] == 0xFF
    ||| buf.len() >= 2 && buf[0] == 0xFF && buf[1] == 0xFE
}

impl Worker {
    /// What the worker is set up with.
    pub closed spec fn options(&self) -> Options {
        self.opts
    }

    /// The byte that ends a line.
    pub fn eol(&self) -> (r: u8)
        ensures
            r == self.options().eol,
    {
        self.opts.eol
    }

    /// Tells how a file of `len` bytes is read. A file that claims to be
    /// empty is never mapped: it cannot be, and it may still hold data.
    pub fn plan(&self, len: u64) -> (r: ReadPlan)
        ensures
            r == if self.options().mmap && len > 0 {
                ReadPlan::Mmap
            } else {
                ReadPlan::Stream
            },
    {
        if self.opts.mmap && len > 0 {
            ReadPlan::Mmap
        } else {
            ReadPlan::Stream
        }
    }

    /// The path under which the file of `work` is reported: its path
    /// without a leading `./`.
    pub fn path_of(&self, work: &Work) -> (r: String)
        ensures
            match *work {
                Work::DirEntry(path) => r@ == without_dot_slash(path@),
            },
    {
        match work {
            Work::DirEntry(path) => {
                let chars = chars_of(path.as_str());
                let s = chars.as_slice();
                if s.len() >= 2 && s[0] == '.' && s[1] == '/' {
                    let rest = slice_subrange(s, 2, s.len());
                    assert(rest@ =~= path@.skip(2));
                    string_of(rest)
                } else {
                    path.clone()
                }
            },
        }
    }

    /// Tells whether the mapped bytes `buf` begin with a byte order mark.
    pub fn has_bom(buf: &[u8]) -> (r: bool)
        ensures
            r == begins_with_bom(buf@),
    {
        let n = buf.len();
        (n >= 3 && buf[0] == 0xEF && buf[1] == 0xBB && buf[2] == 0xBF) || (n >= 2 && buf[0] == 0xFE
            && buf[1] == 0xFF) || (n >= 2 && buf[0] == 0xFF && buf[1] == 0xFE)
    }
}

} // verus!
