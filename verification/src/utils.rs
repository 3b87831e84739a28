//! Small path- and directory-related helpers.
//!
//! Both work on plain values: the caller canonicalizes paths and lists
//! directory entries, and hands the resulting strings in.

use vstd::prelude::*;

verus! {

/// The extended-length prefix some platforms put in front of canonical
/// paths.
pub open spec fn unc_prefix() -> Seq<char> {
    "\\\\?\\"@
}

/// A path with every leading extended-length prefix removed.
pub open spec fn spec_strip_unc(s: Seq<char>) -> Seq<char>
    decreases s.len(),
{
    if s.len() >= 4 && s.subrange(0, 4) == unc_prefix() {
        spec_strip_unc(s.subrange(4, s.len() as int))
    } else {
        s
    }
}

/// Remove every leading `\\?\` prefix from a path.
#[verifier::loop_isolation(false)]
pub fn strip_unc(path: &str) -> (r: String)
    ensures
        r@ == spec_strip_unc(path@),
{
    proof {
        reveal_strlit("\\\\?\\");
    }
    let n = path.unicode_len();
    let mut i: usize = 0;
    proof {
        assert(path@.subrange(0, n as int) =~= path@);
    }
    while n - i >= 4 && path.get_char(i) == '\\' && path.get_char(i + 1) == '\\' && path.get_char(
        i + 2,
    ) == '?' && path.get_char(i + 3) == '\\'
        invariant
            0 <= i <= n,
            n == path@.len(),
            spec_strip_unc(path@) == spec_strip_unc(path@.subrange(i as int, n as int)),
        decreases n - i,
    {
        proof {
            let cur = path@.subrange(i as int, n as int);
            assert(cur.subrange(0, 4) =~= unc_prefix());
            assert(cur.subrange(4, cur.len() as int) =~= path@.subrange(i + 4, n as int));
        }
        i = i + 4;
    }
    proof {
        reveal_strlit("\\\\?\\");
        let cur = path@.subrange(i as int, n as int);
        if cur.len() >= 4 && cur.subrange(0, 4) == unc_prefix() {
            assert(cur[0] == unc_prefix()[0]);
            assert(cur[1] == unc_prefix()[1]);
            assert(cur[2] == unc_prefix()[2]);
            assert(cur[3] == unc_prefix()[3]);
            assert(path@[i as int] == '\\');
            assert(path@[i + 1] == '\\');
            assert(path@[i + 2] == '?');
            assert(path@[i + 3] == '\\');
            assert(false);
        }
    }
    path.substring_char(i, n).to_owned()
}

/// Whether a directory entry makes the directory count as non-empty: with
/// `allow_hidden` set, entries whose name starts with a dot are ignored.
pub open spec fn spec_entry_counts(name: Seq<char>, allow_hidden: bool) -> bool {
    if allow_hidden {
        !(name.len() > 0 && name[0] == '.')
    } else {
        true
    }
}

/// Whether a directory with the given entry names is considered empty.
#[verifier::loop_isolation(false)]
pub fn is_directory_empty(entries: &Vec<String>, allow_hidden: bool) -> (r: bool)
    ensures
        r <==> (forall|t: int|
            0 <= t < entries@.len() ==> !spec_entry_counts(#[trigger] entries@[t]@, allow_hidden)),
{
    let n = entries.len();
    let mut i: usize = 0;
    while i < n
        invariant
            0 <= i <= n,
            forall|t: int| 0 <= t < i ==> !spec_entry_counts(#[trigger] entries@[t]@, allow_hidden),
        decreases n - i,
    {
        let name = &entries[i];
        if allow_hidden {
            let hidden = name.as_str().unicode_len() > 0 && name.as_str().get_char(0) == '.';
            if !hidden {
                proof {
                    assert(spec_entry_counts(entries@[i as int]@, allow_hidden));
                }
                return false;
            }
        } else {
            proof {
                assert(spec_entry_counts(entries@[i as int]@, allow_hidden));
            }
            return false;
        }
        i = i + 1;
    }
    true
}

} // verus!
