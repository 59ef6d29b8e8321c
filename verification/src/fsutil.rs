//! Paths, and the walk that discovers the files to count.
//!
//! A path is a string whose components are separated by `/`. The walk
//! itself touches no file system: it hands out one path at a time, is told
//! what the file system holds there, and decides what follows.

use crate::text::{chars_of, str_eq, string_of, strings};
use vstd::prelude::*;
use vstd::slice::slice_subrange;
use vstd::string::StringExecFns;

verus! {

/// The index of the last `c` in `s`, or -1 if there is none.
pub open spec fn last_index_of(s: Seq<char>, c: char) -> int
    decreases s.len(),
{
    if s.len() == 0 {
        -1
    } else if s.last() == c {
        s.len() - 1
    } else {
        last_index_of(s.drop_last(), c)
    }
}

/// Whether `path` begins at the root of the file system.
pub open spec fn is_absolute(path: Seq<char>) -> bool {
    path.len() > 0 && path.first() == '/'
}

/// `path` as seen from the directory `base`: an absolute path stays as it
/// is, any other is appended to `base`, after a `/` unless `base` is empty
/// or ends with one.
pub open spec fn joined(base: Seq<char>, path: Seq<char>) -> Seq<char> {
    if is_absolute(path) {
        path
    } else if base.len() == 0 || base.last() == '/' {
        base + path
    } else {
        base.push('/') + path
    }
}

/// The last component of `path`: what follows its last `/`.
pub open spec fn file_name(path: Seq<char>) -> Seq<char> {
    path.skip(last_index_of(path, '/') + 1)
}

/// The extension of the file that `path` names: what follows the last `.`
/// of the file name. There is none if the name has no `.`, if its only `.`
/// begins it, or if it is `..`.
pub open spec fn extension_of(path: Seq<char>) -> Option<Seq<char>> {
    let name = file_name(path);
    let dot = last_index_of(name, '.');
    if dot <= 0 || name == seq!['.', '.'] {
        None
    } else {
        Some(name.skip(dot + 1))
    }
}

/// The index of the last `c` lies within the text, holds `c`, and no `c`
/// follows it.
pub proof fn lemma_last_index_of_bounds(s: Seq<char>, c: char)
    ensures
        -1 <= last_index_of(s, c) < s.len(),
        last_index_of(s, c) >= 0 ==> s[last_index_of(s, c)] == c,
        forall|i: int| last_index_of(s, c) < i < s.len() ==> s[i] != c,
    decreases s.len(),
{
    if s.len() > 0 && s.last() != c {
        let t = s.drop_last();
        lemma_last_index_of_bounds(t, c);
        assert forall|i: int| last_index_of(s, c) < i < s.len() implies s[i] != c by {
            if i < t.len() {
                assert(s[i] == t[i]);
            }
        }
    }
}

/// The index of the last `c` in `s`, if there is one.
fn find_last(s: &[char], c: char) -> (r: Option<usize>)
    ensures
        match r {
            Some(i) => i == last_index_of(s@, c),
            None => last_index_of(s@, c) == -1,
        },
{
    let mut i: usize = s.len();
    assert(s@.take(i as int) =~= s@);
    while i > 0
        invariant
            i <= s@.len(),
            last_index_of(s@, c) == last_index_of(s@.take(i as int), c),
        decreases i,
    {
        if s[i - 1] == c {
            return Some(i - 1);
        }
        assert(s@.take(i as int).drop_last() =~= s@.take(i - 1));
        i -= 1;
    }
    None
}

/// Tells whether `path` begins at the root of the file system.
pub fn is_absolute_path(path: &str) -> (r: bool)
    ensures
        r == is_absolute(path@),
{
    let chars = chars_of(path);
    chars.len() > 0 && chars[0] == '/'
}

/// `path` as seen from the directory `base`.
pub fn join(base: &str, path: &str) -> (r: String)
    ensures
        r@ == joined(base@, path@),
{
    if is_absolute_path(path) {
        return String::from_str(path);
    }
    let chars = chars_of(base);
    if chars.len() == 0 || chars[chars.len() - 1] == '/' {
        String::from_str(base).concat(path)
    } else {
        proof {
            reveal_strlit("/");
            assert("/"@ =~= seq!['/']);
            assert(base@ + "/"@ =~= base@.push('/'));
        }
        String::from_str(base).concat("/").concat(path)
    }
}

/// The extension of the file that `path` names, if it has one.
pub fn extension(path: &str) -> (r: Option<String>)
    ensures
        match r {
            Some(e) => extension_of(path@) == Some(e@),
            None => extension_of(path@) is None,
        },
{
    let chars = chars_of(path);
    let s = chars.as_slice();
    proof {
        lemma_last_index_of_bounds(s@, '/');
    }
    let from: usize = match find_last(s, '/') {
        Some(i) => i + 1,
        None => 0,
    };
    let name = slice_subrange(s, from, s.len());
    assert(name@ =~= file_name(path@));
    proof {
        lemma_last_index_of_bounds(name@, '.');
    }
    match find_last(name, '.') {
        Some(dot) => {
            if dot == 0 || (name.len() == 2 && name[0] == '.') {
                assert(dot != 0 ==> name@ =~= seq!['.', '.']);
                None
            } else {
                assert(name@ != seq!['.', '.']) by {
                    if name@.len() == 2 {
                        assert(seq!['.', '.'][0] == '.');
                    }
                }
                let e = slice_subrange(name, dot + 1, name.len());
                assert(e@ =~= name@.skip(dot + 1));
                Some(string_of(e))
            }
        },
        None => None,
    }
}

/// `pending` without the excluded paths that it begins with.
pub open spec fn drop_excluded(exclude: Seq<Seq<char>>, pending: Seq<Seq<char>>) -> Seq<Seq<char>>
    decreases pending.len(),
{
    if pending.len() > 0 && exclude.contains(pending.first()) {
        drop_excluded(exclude, pending.drop_first())
    } else {
        pending
    }
}

/// The walk between two steps, as values without bound.
pub struct WalkState {
    /// The paths that are left out.
    pub exclude: Seq<Seq<char>>,
    /// Whether symbolic links are followed.
    pub follow_links: bool,
    /// The paths that are still to be looked at; the first is the next.
    pub pending: Seq<Seq<char>>,
    /// The path that was handed out and waits for what the file system
    /// holds there.
    pub current: Option<Seq<char>>,
    /// The files found so far, in the order in which they were found.
    pub found: Seq<Seq<char>>,
}

impl WalkState {
    /// No excluded path was handed out, and none is among the files found.
    pub open spec fn sound(self) -> bool {
        &&& forall|i: int| 0 <= i < self.found.len() ==> !self.exclude.contains(self.found[i])
        &&& self.current matches Some(p) ==> !self.exclude.contains(p)
    }

    /// The walk after it was asked for the next path: the excluded paths at
    /// the front are dropped, and the first path behind them, if there is
    /// one, is handed out. A path handed out before and never answered for
    /// is given up.
    pub open spec fn asked(self) -> WalkState {
        let rest = drop_excluded(self.exclude, self.pending);
        if rest.len() == 0 {
            WalkState { pending: rest, current: None, ..self }
        } else {
            WalkState { pending: rest.drop_first(), current: Some(rest.first()), ..self }
        }
    }

    /// The walk after it was told what the file system holds at the path
    /// handed out: a file is found if `is_file`, and `entries` are the next
    /// paths to look at, before all that were pending. Where no path was
    /// handed out, nothing changes.
    pub open spec fn told(self, is_file: bool, entries: Seq<Seq<char>>) -> WalkState {
        match self.current {
            Some(p) => WalkState {
                current: None,
                found: if is_file {
                    self.found.push(p)
                } else {
                    self.found
                },
                pending: entries + self.pending,
                ..self
            },
            None => self,
        }
    }
}

/// What the file system holds at a path.
#[derive(Debug)]
pub enum Probe {
    /// A path that the ignore file excludes.
    Ignored,
    /// A regular file.
    File,
    /// A directory, with the paths of its entries in the order in which
    /// they were read; an entry that could not be read is left out.
    Dir(Vec<String>),
    /// A directory that could not be read.
    Unreadable,
    /// Something that is neither a regular file nor a directory.
    Other,
    /// A path of which nothing can be told, with the paths that it matches
    /// when it is taken as a glob pattern.
    Missing(Vec<String>),
}

impl Probe {
    /// Whether a file was found.
    pub open spec fn is_file(&self) -> bool {
        *self is File
    }

    /// The paths that are to be looked at next: the entries of a directory,
    /// or what a pattern matches.
    pub open spec fn entries(&self) -> Seq<Seq<char>> {
        match *self {
            Probe::Dir(v) => strings(v@),
            Probe::Missing(v) => strings(v@),
            _ => Seq::empty(),
        }
    }
}

/// A path whose place in the file system is to be looked at.
#[derive(Debug)]
pub struct Request {
    pub path: String,
    /// Whether a symbolic link at the path is followed.
    pub follow_links: bool,
}

/// The paths of a stack, from its top down.
pub open spec fn stack_view(v: Seq<String>) -> Seq<Seq<char>> {
    Seq::new(v.len(), |i: int| v[v.len() - 1 - i]@)
}

/// The walk that discovers the files to count. It hands out one path at a
/// time with `next`, and is told with `feed` what the file system holds
/// there.
pub struct Walker {
    exclude: Vec<String>,
    follow_links: bool,
    pending: Vec<String>,
    current: Option<String>,
    found: Vec<String>,
}

impl View for Walker {
    type V = WalkState;

    closed spec fn view(&self) -> WalkState {
        WalkState {
            exclude: strings(self.exclude@),
            follow_links: self.follow_links,
            pending: stack_view(self.pending@),
            current: match self.current {
                Some(p) => Some(p@),
                None => None,
            },
            found: strings(self.found@),
        }
    }
}

impl Walker {
    /// No excluded path was handed out, and none is among the files found.
    pub open spec fn wf(&self) -> bool {
        self@.sound()
    }

    /// A walk that begins at `roots`, in their order, and leaves out the
    /// paths `exclude`.
    pub fn new(roots: Vec<String>, exclude: Vec<String>, follow_links: bool) -> (w: Walker)
        ensures
            w.wf(),
            w@ == (WalkState {
                exclude: strings(exclude@),
                follow_links,
                pending: strings(roots@),
                current: None,
                found: Seq::empty(),
            }),
    {
        let mut roots = roots;
        let ghost all = strings(roots@);
        let mut pending: Vec<String> = Vec::new();
        assert(all.skip(all.len() as int) =~= Seq::<Seq<char>>::empty());
        while roots.len() > 0
            invariant
                roots@.len() <= all.len(),
                strings(roots@) == all.take(roots@.len() as int),
                stack_view(pending@) == all.skip(roots@.len() as int),
            decreases roots@.len(),
        {
            let ghost n = roots@.len();
            let ghost before = stack_view(pending@);
            let ghost full = strings(roots@);
            let p = roots.pop().unwrap();
            pending.push(p);
            proof {
                assert(p@ == full[n - 1]);
                assert(strings(roots@) =~= all.take(n - 1));
                assert(stack_view(pending@) =~= seq![p@] + before);
                assert(seq![p@] + all.skip(n as int) =~= all.skip(n - 1));
            }
        }
        assert(all.skip(0) =~= all);
        let w = Walker { exclude, follow_links, pending, current: None, found: Vec::new() };
        assert(w@.found =~= Seq::<Seq<char>>::empty());
        w
    }

    /// Tells whether `path` is one of the paths that are left out.
    pub fn is_excluded(&self, path: &str) -> (r: bool)
        ensures
            r == self@.exclude.contains(path@),
    {
        let mut i: usize = 0;
        while i < self.exclude.len()
            invariant
                i <= self.exclude@.len(),
                forall|j: int| 0 <= j < i ==> strings(self.exclude@)[j] != path@,
            decreases self.exclude@.len() - i,
        {
            if str_eq(self.exclude[i].as_str(), path) {
                assert(strings(self.exclude@)[i as int] == path@);
                return true;
            }
            i += 1;
        }
        false
    }

    /// Hands out the next path to look at, or `None` when the walk is
    /// over. Excluded paths are passed over: none is ever handed out.
    pub fn next(&mut self) -> (r: Option<Request>)
        requires
            old(self).wf(),
        ensures
            final(self).wf(),
            final(self)@ == old(self)@.asked(),
            match r {
                Some(req) => {
                    &&& final(self)@.current == Some(req.path@)
                    &&& req.follow_links == old(self)@.follow_links
                },
                None => final(self)@.current is None && final(self)@.pending.len() == 0,
            },
    {
        self.current = None;
        while self.pending.len() > 0
            invariant
                old(self).wf(),
                self.current is None,
                self.exclude == old(self).exclude,
                self.follow_links == old(self).follow_links,
                self.found == old(self).found,
                drop_excluded(self@.exclude, self@.pending) == drop_excluded(
                    old(self)@.exclude,
                    old(self)@.pending,
                ),
            decreases self.pending@.len(),
        {
            let ghost before = self@.pending;
            let p = self.pending.pop().unwrap();
            assert(before.first() == p@);
            assert(self@.pending =~= before.drop_first());
            if !self.is_excluded(p.as_str()) {
                self.current = Some(p.clone());
                return Some(Request { path: p, follow_links: self.follow_links });
            }
        }
        assert(self@.pending =~= Seq::<Seq<char>>::empty());
        None
    }

    /// Takes in what the file system holds at the path that was handed
    /// out last. A regular file is found. The entries of a directory, or
    /// what a missing path matches as a pattern, are looked at next, before
    /// all other pending paths and in their order. Anything else, a
    /// directory that cannot be read too, is passed over, and the walk goes
    /// on.
    pub fn feed(&mut self, probe: Probe)
        requires
            old(self).wf(),
        ensures
            final(self).wf(),
            final(self)@ == old(self)@.told(probe.is_file(), probe.entries()),
    {
        let path = match self.current.take() {
            Some(path) => path,
            None => {
                return ;
            },
        };
        let ghost before = old(self)@;
        match probe {
            Probe::File => {
                self.found.push(path);
                assert(self@.found =~= before.found.push(path@));
                assert(probe.entries() + before.pending =~= before.pending);
            },
            Probe::Dir(entries) => {
                self.push_all(entries);
            },
            Probe::Missing(matches) => {
                self.push_all(matches);
            },
            _ => {
                assert(probe.entries() + before.pending =~= before.pending);
            },
        }
    }

    /// Puts `paths` before all pending paths, in their order.
    fn push_all(&mut self, paths: Vec<String>)
        ensures
            final(self)@ == (WalkState {
                pending: strings(paths@) + old(self)@.pending,
                ..old(self)@
            }),
    {
        let mut paths = paths;
        let ghost all = strings(paths@);
        let ghost before = self@.pending;
        assert(all.skip(all.len() as int) + before =~= before);
        while paths.len() > 0
            invariant
                paths@.len() <= all.len(),
                strings(paths@) == all.take(paths@.len() as int),
                self@ == (WalkState {
                    pending: all.skip(paths@.len() as int) + before,
                    ..old(self)@
                }),
            decreases paths@.len(),
        {
            let ghost n = paths@.len();
            let ghost stack = self@.pending;
            let ghost full = strings(paths@);
            let p = paths.pop().unwrap();
            self.pending.push(p);
            proof {
                assert(p@ == full[n - 1]);
                assert(strings(paths@) =~= all.take(n - 1));
                assert(self@.pending =~= seq![p@] + stack);
                assert(seq![p@] + (all.skip(n as int) + before) =~= all.skip(n - 1) + before);
            }
        }
        assert(all.skip(0) =~= all);
    }

    /// Tells whether a path was handed out and waits for `feed`.
    pub fn is_waiting(&self) -> (r: bool)
        ensures
            r == self@.current is Some,
    {
        self.current.is_some()
    }

    /// The files found so far, in the order in which they were found.
    pub fn found(&self) -> (r: &Vec<String>)
        ensures
            strings(r@) == self@.found,
    {
        &self.found
    }

    /// Ends the walk and gives the files found, in the order in which they
    /// were found.
    pub fn into_found(self) -> (r: Vec<String>)
        ensures
            strings(r@) == self@.found,
    {
        self.found
    }
}

/// The walk stays sound: asking for the next path and telling what the
/// file system holds there never lets an excluded path be handed out or
/// found.
pub proof fn lemma_walk_stays_sound(w: WalkState, is_file: bool, entries: Seq<Seq<char>>)
    requires
        w.sound(),
    ensures
        w.asked().sound(),
        w.told(is_file, entries).sound(),
{
    lemma_drop_excluded(w.exclude, w.pending);
    let t = w.told(is_file, entries);
    assert forall|i: int| 0 <= i < t.found.len() implies !t.exclude.contains(t.found[i]) by {
        if i < w.found.len() {
            assert(t.found[i] == w.found[i]);
        }
    }
}

/// What is left when the excluded paths at the front are dropped begins
/// with a path that is not excluded.
pub proof fn lemma_drop_excluded(exclude: Seq<Seq<char>>, pending: Seq<Seq<char>>)
    ensures
        drop_excluded(exclude, pending).len() > 0 ==> !exclude.contains(
            drop_excluded(exclude, pending).first(),
        ),
    decreases pending.len(),
{
    if pending.len() > 0 && exclude.contains(pending.first()) {
        lemma_drop_excluded(exclude, pending.drop_first());
    }
}

/// An excluded path is never among the files found, whatever the file
/// system holds.
pub proof fn lemma_excluded_never_found(w: WalkState, path: Seq<char>)
    requires
        w.sound(),
        w.exclude.contains(path),
    ensures
        !w.found.contains(path),
{
    if w.found.contains(path) {
        let i = choose|i: int| 0 <= i < w.found.len() && w.found[i] == path;
        assert(!w.exclude.contains(w.found[i]));
    }
}

/// Two walks that stand alike and are told the same go on alike. So a walk
/// over an unchanged tree finds the same files in the same order.
pub proof fn lemma_walk_repeatable(
    a: WalkState,
    b: WalkState,
    is_file: bool,
    entries: Seq<Seq<char>>,
)
    requires
        a == b,
    ensures
        a.asked() == b.asked(),
        a.asked().told(is_file, entries) == b.asked().told(is_file, entries),
{
}

} // verus!
