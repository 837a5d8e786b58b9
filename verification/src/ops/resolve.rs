//! From the path of a URL to a path in the tree: the segments of the one,
//! and what is kept track of while the other is walked.

use crate::ops::HttpHandler;
use crate::text::{chars_of, index_of, lemma_index_of_unique, slice, string_of};
use crate::util::url::{percent_decode, percent_decoded};
use vstd::prelude::*;
use vstd::string::StringSliceAdditionalSpecFns;

verus! {

/// How many links are followed at most on the way to one path.
pub const MAX_SYMLINKS: usize = 40;

/// The parts of `s` between its slashes, without the empty ones.
pub open spec fn segments(s: Seq<char>) -> Seq<Seq<char>>
    decreases s.len(),
{
    if s.len() == 0 {
        Seq::empty()
    } else {
        let i = index_of(s, '/');
        if i == 0 {
            segments(s.skip(1))
        } else if 0 < i < s.len() {
            seq![s.take(i)] + segments(s.skip(i + 1))
        } else {
            seq![s]
        }
    }
}

/// The texts of `v`.
pub open spec fn texts(v: Seq<String>) -> Seq<Seq<char>> {
    Seq::new(v.len(), |i: int| v[i]@)
}

/// Splits the path of a URL into its segments, leaving out the empty ones.
pub fn path_segments(url_path: &str) -> (r: Vec<String>)
    ensures
        texts(r@) == segments(url_path@),
{
    let all = chars_of(url_path);
    let mut out: Vec<String> = Vec::new();
    let mut pos: usize = 0;
    assert(all@.skip(0) =~= all@);
    assert(texts(out@) =~= Seq::empty());
    while pos < all.len()
        invariant
            pos <= all.len(),
            all@ == url_path@,
            segments(all@) == texts(out@) + segments(all@.skip(pos as int)),
        decreases all.len() - pos,
    {
        let ghost rest = all@.skip(pos as int);
        let ghost before = texts(out@);
        let mut end: usize = pos;
        while end < all.len() && all[end] != '/'
            invariant
                pos <= end <= all.len(),
                forall|j: int| pos <= j < end ==> all@[j] != '/',
            decreases all.len() - end,
        {
            end = end + 1;
        }
        proof {
            assert forall|j: int| 0 <= j < end - pos implies rest[j] != '/' by {
                assert(rest[j] == all@[pos + j]);
            }
            lemma_index_of_unique(rest, '/', end - pos);
        }
        if end > pos {
            let piece = string_of(&slice(&all, pos, end));
            assert(piece@ =~= rest.take(end - pos));
            out.push(piece);
            assert(texts(out@) =~= before + seq![rest.take(end - pos)]);
        }
        if end < all.len() {
            assert(rest.skip(end - pos + 1) =~= all@.skip(end + 1));
            pos = end + 1;
        } else {
            assert(rest.take(end - pos) =~= rest);
            assert(all@.skip(end as int) =~= Seq::<char>::empty());
            pos = end;
        }
        assert(segments(all@) =~= texts(out@) + segments(all@.skip(pos as int)));
    }
    assert(segments(all@) =~= texts(out@));
    out
}

/// What is kept track of while a path is walked segment by segment.
#[derive(Debug, Clone, Copy, PartialEq, Eq, Structural)]
pub struct Resolution {
    /// Whether links are followed at all.
    pub follow_symlinks: bool,
    /// A link stood on the way, followed or not.
    pub symlink: bool,
    /// A segment did not decode to text.
    pub url_err: bool,
    /// No link that was followed led on relative to where it stood.
    pub absolute: bool,
    /// How many more links may be followed.
    pub depth_left: usize,
}

/// What to do about a link.
#[derive(Debug, Clone, Copy, PartialEq, Eq, Structural)]
pub enum LinkAction {
    /// The walk goes on from where the link leads.
    Replace,
    /// The walk goes on from where the link leads, seen from the directory that
    /// holds the link.
    Rebase,
    /// The link is not followed: the walk goes on with the next segment.
    Stay,
}

/// What a walk has come to.
#[derive(Debug, Clone, Copy, PartialEq, Eq, Structural)]
pub struct Resolved {
    /// The path is to be brought into canonical form, where it has one.
    pub canonicalize: bool,
    pub symlink: bool,
    pub url_err: bool,
}

impl Resolution {
    /// The state before the first segment.
    pub fn new(follow_symlinks: bool) -> (r: Resolution)
        ensures
            r == (Resolution {
                follow_symlinks,
                symlink: false,
                url_err: false,
                absolute: true,
                depth_left: MAX_SYMLINKS,
            }),
    {
        Resolution {
            follow_symlinks,
            symlink: false,
            url_err: false,
            absolute: true,
            depth_left: MAX_SYMLINKS,
        }
    }

    /// Takes the next segment as the URL has it, and gives what is to be joined
    /// to the path: the segment decoded, or nothing where it does not decode to
    /// text, which is then on record.
    pub fn segment(&mut self, raw: &str) -> (r: Option<String>)
        ensures
            match r {
                Some(name) => percent_decoded(raw.spec_bytes()) == Some(name@) && *final(self)
                    == *old(self),
                None => percent_decoded(raw.spec_bytes()) is None && *final(self) == (Resolution {
                    url_err: true,
                    ..*old(self)
                }),
            },
    {
        match percent_decode(raw) {
            Some(name) => Some(name),
            None => {
                self.url_err = true;
                None
            },
        }
    }

    /// Takes note that the path so far is a link, which leads to an absolute
    /// path or not, and says what to do about it. The link is followed where
    /// links are followed at all and fewer than forty have been.
    pub fn link(&mut self, target_absolute: bool) -> (r: LinkAction)
        ensures
            old(self).follow_symlinks && old(self).depth_left != 0 ==> *final(self) == (Resolution {
                symlink: true,
                absolute: old(self).absolute && target_absolute,
                depth_left: (old(self).depth_left - 1) as usize,
                ..*old(self)
            }) && r == if target_absolute {
                LinkAction::Replace
            } else {
                LinkAction::Rebase
            },
            !(old(self).follow_symlinks && old(self).depth_left != 0) ==> *final(self)
                == (Resolution { symlink: true, ..*old(self) }) && r == LinkAction::Stay,
    {
        self.symlink = true;
        if self.follow_symlinks && self.depth_left != 0 {
            self.depth_left = self.depth_left - 1;
            if target_absolute {
                LinkAction::Replace
            } else {
                self.absolute = false;
                LinkAction::Rebase
            }
        } else {
            LinkAction::Stay
        }
    }

    /// Ends the walk. The path is brought into canonical form where a link
    /// led on relative to where it stood, so that no `..` is left in it.
    pub fn finish(&self) -> (r: Resolved)
        ensures
            r == (Resolved {
                canonicalize: !self.absolute,
                symlink: self.symlink,
                url_err: self.url_err,
            }),
    {
        Resolved { canonicalize: !self.absolute, symlink: self.symlink, url_err: self.url_err }
    }
}

impl HttpHandler {
    /// Starts the walk to the path that a URL names, with links followed: the
    /// segments to walk, and the state to walk them with.
    pub fn parse_requested_path(&self, url_path: &str) -> (r: (Vec<String>, Resolution))
        ensures
            texts(r.0@) == segments(url_path@),
            r.1 == (Resolution {
                follow_symlinks: true,
                symlink: false,
                url_err: false,
                absolute: true,
                depth_left: MAX_SYMLINKS,
            }),
    {
        self.parse_requested_path_custom_symlink(url_path, true)
    }

    /// As `parse_requested_path`, with links followed or not.
    pub fn parse_requested_path_custom_symlink(&self, url_path: &str, follow_symlinks: bool) -> (r:
        (Vec<String>, Resolution))
        ensures
            texts(r.0@) == segments(url_path@),
            r.1 == (Resolution {
                follow_symlinks,
                symlink: false,
                url_err: false,
                absolute: true,
                depth_left: MAX_SYMLINKS,
            }),
    {
        (path_segments(url_path), Resolution::new(follow_symlinks))
    }
}

} // verus!
