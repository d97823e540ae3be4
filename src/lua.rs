use vstd::prelude::*;
use std::path::PathBuf;
use crate::textmap::texts;

verus! {

/// A file system path, carried through unread.
#[verifier::external_type_specification]
#[verifier::external_body]
pub struct ExPathBuf(PathBuf);

/// Where the package manager of the script interpreter is installed.
pub struct LuaRocks {
    luarocks_path: PathBuf,
}

impl LuaRocks {
    pub closed spec fn path_spec(&self) -> PathBuf {
        self.luarocks_path
    }

    pub fn new(luarocks_path: PathBuf) -> (r: Self)
        ensures
            r.path_spec() == luarocks_path,
    {
        LuaRocks { luarocks_path }
    }

    /// The program that installs and lists packages.
    pub fn path(&self) -> (r: &PathBuf)
        ensures
            *r == self.path_spec(),
    {
        &self.luarocks_path
    }
}

/// `s` cut at each line feed: one more piece than there are line feeds.
pub open spec fn pieces(s: Seq<char>) -> Seq<Seq<char>>
    decreases s.len(),
{
    if s.len() == 0 {
        seq![Seq::empty()]
    } else {
        let p = pieces(s.drop_last());
        if s.last() == '\n' {
            p.push(Seq::empty())
        } else {
            p.update(p.len() - 1, p.last().push(s.last()))
        }
    }
}

/// A line without the carriage return that ended it.
pub open spec fn strip_cr(l: Seq<char>) -> Seq<char> {
    if l.len() > 0 && l.last() == '\r' {
        l.drop_last()
    } else {
        l
    }
}

/// The lines of `s`: ended by a line feed or by a carriage return and a line feed,
/// the last one with or without an ending; an ending at the very end adds no empty line.
pub open spec fn lines_of(s: Seq<char>) -> Seq<Seq<char>> {
    let p = pieces(s);
    let ended = p.drop_last().map_values(|l: Seq<char>| strip_cr(l));
    if p.last().len() == 0 {
        ended
    } else {
        ended.push(p.last())
    }
}

/// The package names in the listing that the package manager prints, one per line.
pub fn package_lines(listing: &str) -> (r: Vec<String>)
    ensures
        texts(r@) == lines_of(listing@),
{
    let n = listing.unicode_len();
    let mut out: Vec<String> = Vec::new();
    let mut start: usize = 0;
    let mut i: usize = 0;
    proof {
        assert(listing@.subrange(0, 0) =~= Seq::<char>::empty());
        assert(texts(out@) =~= Seq::<Seq<char>>::empty());
    }
    while i < n
        invariant
            n == listing@.len(),
            start <= i <= n,
            pieces(listing@.subrange(0, i as int)).len() >= 1,
            texts(out@) == pieces(listing@.subrange(0, i as int)).drop_last().map_values(
                |l: Seq<char>| strip_cr(l),
            ),
            pieces(listing@.subrange(0, i as int)).last() == listing@.subrange(
                start as int,
                i as int,
            ),
        decreases n - i,
    {
        let c = listing.get_char(i);
        let ghost t = listing@.subrange(0, i + 1);
        let ghost p = pieces(listing@.subrange(0, i as int));
        let ghost prev_out = out@;
        assert(t.drop_last() =~= listing@.subrange(0, i as int));
        assert(t.last() == c);
        if c == '\n' {
            let line = if i > start && listing.get_char(i - 1) == '\r' {
                listing.substring_char(start, i - 1)
            } else {
                listing.substring_char(start, i)
            };
            assert(line@ == strip_cr(listing@.subrange(start as int, i as int))) by {
                if i > start && listing@[i - 1] == '\r' {
                    assert(listing@.subrange(start as int, i - 1) =~= listing@.subrange(
                        start as int,
                        i as int,
                    ).drop_last());
                }
            }
            out.push(line.to_owned());
            start = i + 1;
            assert(pieces(t) == p.push(Seq::<char>::empty()));
            assert(pieces(t).drop_last() =~= p);
            assert(texts(out@) =~= texts(prev_out).push(line@));
            assert(p.map_values(|l: Seq<char>| strip_cr(l)) =~= p.drop_last().map_values(
                |l: Seq<char>| strip_cr(l),
            ).push(strip_cr(p.last())));
            assert(listing@.subrange(start as int, i + 1) =~= Seq::<char>::empty());
        } else {
            assert(pieces(t) == p.update(p.len() - 1, p.last().push(c)));
            assert(pieces(t).drop_last() =~= p.drop_last());
            assert(listing@.subrange(start as int, i + 1) =~= listing@.subrange(
                start as int,
                i as int,
            ).push(c));
        }
        i = i + 1;
    }
    assert(listing@.subrange(0, n as int) =~= listing@);
    if start < n {
        let ghost prev_out = out@;
        out.push(listing.substring_char(start, n).to_owned());
        assert(texts(out@) =~= texts(prev_out).push(listing@.subrange(start as int, n as int)));
    }
    out
}

} // verus!
