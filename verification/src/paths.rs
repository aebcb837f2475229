//! Path handling on plain strings. A path is a `/`-separated string; the
//! library only ever needs its final segment (the directory name a skill
//! lives in), the parent of a manifest file path, and joining a directory
//! with a canonical manifest filename.

use vstd::prelude::*;
use crate::text::str_eq;

verus! {

/// The path without its trailing `/` separators.
pub open spec fn strip_trailing_slashes(p: Seq<char>) -> Seq<char>
    decreases p.len(),
{
    if p.len() > 0 && p.last() == '/' {
        strip_trailing_slashes(p.drop_last())
    } else {
        p
    }
}

/// The suffix after the last `/`; the whole sequence when it has none.
pub open spec fn after_last_slash(p: Seq<char>) -> Seq<char>
    decreases p.len(),
{
    if p.len() == 0 {
        Seq::<char>::empty()
    } else if p.last() == '/' {
        Seq::<char>::empty()
    } else {
        after_last_slash(p.drop_last()).push(p.last())
    }
}

/// The final segment of a path: what follows the last separator, with
/// trailing separators ignored.
pub open spec fn dir_segment_of(p: Seq<char>) -> Seq<char> {
    after_last_slash(strip_trailing_slashes(p))
}

/// The parent of a path: the path with its final segment removed, without a
/// trailing separator, except that a path whose head is all separators keeps
/// a single root `/`.
pub open spec fn parent_of(p: Seq<char>) -> Seq<char> {
    let stripped = strip_trailing_slashes(p);
    let seg = after_last_slash(stripped);
    let head = stripped.take(stripped.len() - seg.len());
    let short = strip_trailing_slashes(head);
    if short.len() == 0 && head.len() > 0 {
        "/"@
    } else {
        short
    }
}

/// A directory joined with a filename, inserting `/` only where needed.
pub open spec fn joined_path(dir: Seq<char>, file: Seq<char>) -> Seq<char> {
    if dir.len() == 0 {
        file
    } else if dir.last() == '/' {
        dir + file
    } else {
        dir + "/"@ + file
    }
}

/// A path resolves to the skill directory it names: a path to a canonical
/// manifest filename resolves to its parent, any other path to itself.
pub open spec fn resolved_path_of(p: Seq<char>) -> Seq<char> {
    if dir_segment_of(p) == "SKILL.md"@ || dir_segment_of(p) == "skill.md"@ {
        parent_of(p)
    } else {
        p
    }
}

/// The largest `k <= upto` such that the first `k` characters carry no
/// trailing separator.
fn strip_len(s: &str, upto: usize) -> (k: usize)
    requires
        upto <= s@.len(),
    ensures
        k <= upto,
        s@.subrange(0, k as int) == strip_trailing_slashes(s@.subrange(0, upto as int)),
{
    let mut i: usize = upto;
    loop
        invariant
            i <= upto <= s@.len(),
            strip_trailing_slashes(s@.subrange(0, upto as int)) == strip_trailing_slashes(
                s@.subrange(0, i as int),
            ),
        ensures
            i <= upto,
            s@.subrange(0, i as int) == strip_trailing_slashes(s@.subrange(0, upto as int)),
        decreases i,
    {
        if i == 0 {
            proof {
                assert(s@.subrange(0, 0).len() == 0);
            }
            break ;
        }
        let c = s.get_char(i - 1);
        proof {
            assert(s@.subrange(0, i as int).last() == s@[i - 1]);
        }
        if c != '/' {
            break ;
        }
        proof {
            assert(s@.subrange(0, i as int).drop_last() =~= s@.subrange(0, i - 1));
        }
        i = i - 1;
    }
    i
}

/// The start of the final segment of the first `upto` characters.
fn segment_start(s: &str, upto: usize) -> (j: usize)
    requires
        upto <= s@.len(),
    ensures
        j <= upto,
        s@.subrange(j as int, upto as int) == after_last_slash(s@.subrange(0, upto as int)),
{
    let mut j: usize = upto;
    proof {
        assert(s@.subrange(upto as int, upto as int) =~= Seq::<char>::empty());
    }
    loop
        invariant
            j <= upto <= s@.len(),
            after_last_slash(s@.subrange(0, upto as int)) == after_last_slash(
                s@.subrange(0, j as int),
            ) + s@.subrange(j as int, upto as int),
        ensures
            j <= upto,
            s@.subrange(j as int, upto as int) == after_last_slash(s@.subrange(0, upto as int)),
        decreases j,
    {
        if j == 0 {
            proof {
                assert(after_last_slash(s@.subrange(0, 0)) =~= Seq::<char>::empty());
                assert(Seq::<char>::empty() + s@.subrange(0, upto as int) =~= s@.subrange(
                    0,
                    upto as int,
                ));
            }
            break ;
        }
        let c = s.get_char(j - 1);
        proof {
            assert(s@.subrange(0, j as int).last() == s@[j - 1]);
        }
        if c == '/' {
            proof {
                assert(after_last_slash(s@.subrange(0, j as int)) =~= Seq::<char>::empty());
                assert(Seq::<char>::empty() + s@.subrange(j as int, upto as int) =~= s@.subrange(
                    j as int,
                    upto as int,
                ));
            }
            break ;
        }
        proof {
            let pre = s@.subrange(0, j as int);
            assert(pre.drop_last() =~= s@.subrange(0, j - 1));
            assert(after_last_slash(s@.subrange(0, j - 1)).push(s@[j - 1]) + s@.subrange(
                j as int,
                upto as int,
            ) =~= after_last_slash(s@.subrange(0, j - 1)) + s@.subrange(j - 1, upto as int));
        }
        j = j - 1;
    }
    j
}

/// The final segment of the path: what follows the last `/`, with trailing
/// separators ignored.
pub fn dir_segment(s: &str) -> (r: &str)
    ensures
        r@ == dir_segment_of(s@),
{
    let n = s.unicode_len();
    proof {
        assert(s@.subrange(0, n as int) =~= s@);
    }
    let i = strip_len(s, n);
    let j = segment_start(s, i);
    s.substring_char(j, i)
}

/// Resolves a path to the skill directory it names: a path whose final
/// segment is `SKILL.md` or `skill.md` resolves to its parent, any other
/// path to itself.
pub fn resolve_skill_path(path: &str) -> (r: String)
    ensures
        r@ == resolved_path_of(path@),
{
    let n = path.unicode_len();
    proof {
        assert(path@.subrange(0, n as int) =~= path@);
    }
    let i = strip_len(path, n);
    let j = segment_start(path, i);
    let seg = path.substring_char(j, i);
    if !(str_eq(seg, "SKILL.md") || str_eq(seg, "skill.md")) {
        return path.to_owned();
    }
    proof {
        let stripped = strip_trailing_slashes(path@);
        assert(stripped.take(stripped.len() - seg@.len()) =~= path@.subrange(0, j as int));
    }
    let k = strip_len(path, j);
    if k == 0 && j > 0 {
        String::from_str("/")
    } else {
        path.substring_char(0, k).to_owned()
    }
}

} // verus!
