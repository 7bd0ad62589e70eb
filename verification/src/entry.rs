//! The result record handed back for each matching application, and
//! the rule that turns a file-system path into a display name: the
//! text after the last path separator, with every occurrence of the
//! shortcut suffix `.lnk` removed.

use vstd::prelude::*;
use vstd::string::StrSliceExecFns;
use vstd::string::StringExecFns;

verus! {

/// A launchable search result: the name shown to the user and the
/// file-system path used to start the program.
pub struct Runnable {
    name: String,
    exec_path: String,
}

/// Mathematical image of a [`Runnable`]: both fields as character
/// sequences.
pub ghost struct RunnableView {
    pub name: Seq<char>,
    pub exec_path: Seq<char>,
}

impl View for Runnable {
    type V = RunnableView;

    closed spec fn view(&self) -> RunnableView {
        RunnableView { name: self.name@, exec_path: self.exec_path@ }
    }
}

impl Runnable {
    pub fn new(name: String, exec_path: String) -> (r: Runnable)
        ensures
            r@.name == name@,
            r@.exec_path == exec_path@,
    {
        Runnable { name, exec_path }
    }

    /// The name shown to the user.
    pub fn name(&self) -> (r: &String)
        ensures
            r@ == self@.name,
    {
        &self.name
    }

    /// The path used to start the program.
    pub fn exec_path(&self) -> (r: &String)
        ensures
            r@ == self@.exec_path,
    {
        &self.exec_path
    }
}

/// True when the four characters of `.lnk` stand at position `i` of `s`.
pub open spec fn lnk_at(s: Seq<char>, i: int) -> bool {
    &&& i + 4 <= s.len()
    &&& s[i] == '.'
    &&& s[i + 1] == 'l'
    &&& s[i + 2] == 'n'
    &&& s[i + 3] == 'k'
}

/// The suffix of `s` from position `i` on, with every occurrence of
/// `.lnk` removed, scanning left to right without overlap; the same
/// rule by which `str::replace(".lnk", "")` rewrites a string.
pub open spec fn strip_lnk_from(s: Seq<char>, i: int) -> Seq<char>
    decreases s.len() - i,
{
    if i < 0 || i >= s.len() {
        Seq::empty()
    } else if lnk_at(s, i) {
        strip_lnk_from(s, i + 4)
    } else {
        seq![s[i]] + strip_lnk_from(s, i + 1)
    }
}

/// The position just after the last occurrence of `sep` in `s`, or 0
/// when `sep` does not occur: the start of the last path segment.
pub open spec fn cut_of(s: Seq<char>, sep: char) -> int
    decreases s.len(),
{
    if s.len() == 0 {
        0
    } else if s[s.len() - 1] == sep {
        s.len() as int
    } else {
        cut_of(s.drop_last(), sep)
    }
}

/// The display name derived from a path: its last segment, with every
/// occurrence of `.lnk` removed.
pub open spec fn display_name_of(path: Seq<char>, sep: char) -> Seq<char> {
    strip_lnk_from(path, cut_of(path, sep))
}

/// The display name the launcher shows for `path`: the text after the
/// last `sep`, with every occurrence of `.lnk` removed.
pub fn display_name(path: &str, sep: char) -> (r: String)
    ensures
        r@ == display_name_of(path@, sep),
{
    let n = path.unicode_len();
    let mut cut: usize = 0;
    let mut i: usize = 0;
    while i < n
        invariant
            n == path@.len(),
            i <= n,
            cut <= i,
            cut_of(path@.subrange(0, i as int), sep) == cut,
        decreases n - i,
    {
        if path.get_char(i) == sep {
            cut = i + 1;
        }
        proof {
            let pre = path@.subrange(0, i + 1);
            assert(pre.len() == i + 1);
            assert(pre[i as int] == path@[i as int]);
            if path@[i as int] != sep {
                assert(pre.drop_last() =~= path@.subrange(0, i as int));
            }
        }
        i = i + 1;
    }
    proof {
        assert(path@.subrange(0, n as int) =~= path@);
    }

    let mut out = String::new();
    proof {
        assert(out@ + strip_lnk_from(path@, cut as int) =~= strip_lnk_from(path@, cut as int));
    }
    let mut j: usize = cut;
    while j < n
        invariant
            n == path@.len(),
            j <= n,
            display_name_of(path@, sep) == out@ + strip_lnk_from(path@, j as int),
        decreases n - j,
    {
        let is_lnk = n - j >= 4 && path.get_char(j) == '.' && path.get_char(j + 1) == 'l'
            && path.get_char(j + 2) == 'n' && path.get_char(j + 3) == 'k';
        if is_lnk {
            assert(lnk_at(path@, j as int));
            j = j + 4;
        } else {
            assert(!lnk_at(path@, j as int));
            let ghost pre = out@;
            let c = path.substring_char(j, j + 1);
            out.append(c);
            proof {
                assert(c@ =~= seq![path@[j as int]]);
                assert(pre + strip_lnk_from(path@, j as int) =~= (pre + seq![path@[j as int]])
                    + strip_lnk_from(path@, j + 1));
            }
            j = j + 1;
        }
    }
    proof {
        assert(strip_lnk_from(path@, n as int) =~= Seq::<char>::empty());
        assert(out@ + Seq::<char>::empty() =~= out@);
    }
    out
}

} // verus!
