//! The path model.
//!
//! The engine dispatches on a changed path's extension and derives each output
//! path by replacing that extension. Paths are plain strings here; a path's
//! final component begins after the last `/`, and its extension begins at the
//! last `.` that stands strictly after the component's first character (so a
//! leading-dot name such as `.config` carries no extension).

use vstd::prelude::*;
use vstd::string::StrSliceExecFns;
use vstd::string::StringExecFns;

use crate::errors::DispatchError;

verus! {

/// Index of the first character of the final path component: one past the
/// last `/`, or 0 when the path holds no `/`.
pub open spec fn name_start(s: Seq<char>) -> int
    decreases s.len(),
{
    if s.len() == 0 {
        0
    } else if s[s.len() - 1] == '/' {
        s.len() as int
    } else {
        name_start(s.drop_last())
    }
}

/// Index of the last `.` at or past `lo`, or -1 when there is none.
pub open spec fn last_dot_from(s: Seq<char>, lo: int) -> int
    decreases s.len(),
{
    if s.len() == 0 || s.len() <= lo {
        -1
    } else if s[s.len() - 1] == '.' {
        s.len() - 1
    } else {
        last_dot_from(s.drop_last(), lo)
    }
}

/// Index of the dot that starts the extension: the last `.` strictly after
/// the final component's first character, or -1 when there is none.
pub open spec fn ext_dot(s: Seq<char>) -> int {
    last_dot_from(s, name_start(s) + 1)
}

/// The extension the engine dispatches on.
pub open spec fn ext_view(s: Seq<char>) -> Option<Seq<char>> {
    if ext_dot(s) >= 0 {
        Some(s.subrange(ext_dot(s) + 1, s.len() as int))
    } else {
        None
    }
}

/// The final path component.
pub open spec fn name_view(s: Seq<char>) -> Seq<char> {
    s.subrange(name_start(s), s.len() as int)
}

/// A path can take a new extension unless its final component is empty, `.`,
/// or `..`: those have no stem to attach one to.
pub open spec fn has_stem(s: Seq<char>) -> bool {
    &&& name_view(s) != Seq::<char>::empty()
    &&& name_view(s) != seq!['.']
    &&& name_view(s) != seq!['.', '.']
}

/// The path with its extension replaced by `e` (the old extension and its dot
/// are dropped; a path without an extension gains `.` and `e`).
pub open spec fn with_ext_view(s: Seq<char>, e: Seq<char>) -> Seq<char> {
    let base: int = if ext_dot(s) >= 0 {
        ext_dot(s)
    } else {
        s.len() as int
    };
    s.subrange(0, base) + seq!['.'] + e
}

/// Where the final component begins: within bounds, past every `/`, and
/// right after one when the path has any.
pub proof fn lemma_name_start(s: Seq<char>)
    ensures
        0 <= name_start(s) <= s.len(),
        forall|j: int| name_start(s) <= j < s.len() ==> s[j] != '/',
        name_start(s) > 0 ==> s[name_start(s) - 1] == '/',
    decreases s.len(),
{
    if s.len() == 0 {
    } else if s[s.len() - 1] == '/' {
    } else {
        lemma_name_start(s.drop_last());
        assert forall|j: int| name_start(s) <= j < s.len() implies s[j] != '/' by {
            if j < s.len() - 1 {
                assert(s.drop_last()[j] == s[j]);
            }
        }
        if name_start(s) > 0 {
            assert(s.drop_last()[name_start(s) - 1] == s[name_start(s) - 1]);
        }
    }
}

/// What the last-dot index means: it is a `.` at or past `lo` with none
/// after it, or -1 when no such `.` exists.
pub proof fn lemma_last_dot(s: Seq<char>, lo: int)
    requires
        0 <= lo,
    ensures
        last_dot_from(s, lo) == -1 || lo <= last_dot_from(s, lo) < s.len(),
        last_dot_from(s, lo) == -1 ==> forall|j: int| lo <= j < s.len() ==> s[j] != '.',
        last_dot_from(s, lo) >= 0 ==> s[last_dot_from(s, lo)] == '.',
        last_dot_from(s, lo) >= 0 ==> forall|j: int|
            last_dot_from(s, lo) < j < s.len() ==> s[j] != '.',
    decreases s.len(),
{
    if s.len() <= lo {
    } else if s[s.len() - 1] == '.' {
    } else {
        lemma_last_dot(s.drop_last(), lo);
        let d = last_dot_from(s, lo);
        if d == -1 {
            assert forall|j: int| lo <= j < s.len() implies s[j] != '.' by {
                if j < s.len() - 1 {
                    assert(s.drop_last()[j] == s[j]);
                }
            }
        } else {
            assert(s.drop_last()[d] == s[d]);
            assert forall|j: int| d < j < s.len() implies s[j] != '.' by {
                if j < s.len() - 1 {
                    assert(s.drop_last()[j] == s[j]);
                }
            }
        }
    }
}

/// Raising the floor `lo` keeps the last dot when it clears the floor and
/// loses it otherwise.
pub proof fn lemma_last_dot_shift(s: Seq<char>, lo: int)
    requires
        0 <= lo,
    ensures
        last_dot_from(s, lo) == if last_dot_from(s, 0) >= lo {
            last_dot_from(s, 0)
        } else {
            -1
        },
    decreases s.len(),
{
    if s.len() <= lo {
        lemma_last_dot(s, 0);
    } else if s[s.len() - 1] == '.' {
    } else {
        lemma_last_dot_shift(s.drop_last(), lo);
    }
}

/// One scan step: how the final component's start moves when `s[i]` joins the
/// prefix.
pub proof fn lemma_name_start_take(s: Seq<char>, i: int)
    requires
        0 <= i < s.len(),
    ensures
        name_start(s.take(i + 1)) == if s[i] == '/' {
            i + 1
        } else {
            name_start(s.take(i))
        },
{
    assert(s.take(i + 1).drop_last() =~= s.take(i));
    assert(s.take(i + 1)[i] == s[i]);
}

/// One scan step: how the last dot moves when `s[i]` joins the prefix.
pub proof fn lemma_last_dot_take(s: Seq<char>, i: int)
    requires
        0 <= i < s.len(),
    ensures
        last_dot_from(s.take(i + 1), 0) == if s[i] == '.' {
            i
        } else {
            last_dot_from(s.take(i), 0)
        },
{
    assert(s.take(i + 1).drop_last() =~= s.take(i));
    assert(s.take(i + 1)[i] == s[i]);
}

/// A path with a non-empty extension has a stem: the extension's dot stands
/// strictly inside the final component, so that component holds at least one
/// character besides the dot and cannot be empty, `.`, or `..`.
pub proof fn lemma_ext_implies_stem(s: Seq<char>)
    requires
        ext_view(s) matches Some(e) && e.len() >= 1,
    ensures
        has_stem(s),
{
    lemma_name_start(s);
    lemma_last_dot(s, name_start(s) + 1);
    assert(name_view(s).len() == s.len() - name_start(s));
    assert(seq!['.'].len() == 1);
    assert(seq!['.', '.'].len() == 2);
}

/// Where the final path component of `p` begins.
pub fn name_start_of(p: &str) -> (i: usize)
    ensures
        i as int == name_start(p@),
        i <= p@.len(),
{
    let n = p.unicode_len();
    let mut i: usize = 0;
    let mut start: usize = 0;
    proof {
        assert(p@.take(0) =~= Seq::<char>::empty());
    }
    while i < n
        invariant
            n == p@.len(),
            i <= n,
            start <= i,
            start as int == name_start(p@.take(i as int)),
        decreases n - i,
    {
        proof {
            lemma_name_start_take(p@, i as int);
        }
        if p.get_char(i) == '/' {
            start = i + 1;
        }
        i += 1;
    }
    proof {
        assert(p@.take(n as int) =~= p@);
    }
    start
}

/// The index of the last `.` in `p`, if any.
pub fn last_dot_of(p: &str) -> (d: Option<usize>)
    ensures
        match d {
            Some(j) => j as int == last_dot_from(p@, 0) && j < p@.len(),
            None => last_dot_from(p@, 0) == -1,
        },
{
    let n = p.unicode_len();
    let mut i: usize = 0;
    let mut dot: usize = 0;
    let mut has_dot: bool = false;
    proof {
        assert(p@.take(0) =~= Seq::<char>::empty());
    }
    while i < n
        invariant
            n == p@.len(),
            i <= n,
            has_dot ==> dot < i && dot as int == last_dot_from(p@.take(i as int), 0),
            !has_dot ==> last_dot_from(p@.take(i as int), 0) == -1,
        decreases n - i,
    {
        proof {
            lemma_last_dot_take(p@, i as int);
        }
        if p.get_char(i) == '.' {
            dot = i;
            has_dot = true;
        }
        i += 1;
    }
    proof {
        assert(p@.take(n as int) =~= p@);
    }
    if has_dot {
        Some(dot)
    } else {
        None
    }
}

/// The extension of `p`, when it has one.
pub fn extension_of(p: &str) -> (r: Option<String>)
    ensures
        match r {
            Some(e) => ext_view(p@) == Some(e@),
            None => ext_view(p@) is None,
        },
{
    let n = p.unicode_len();
    let start = name_start_of(p);
    let dot = last_dot_of(p);
    proof {
        lemma_last_dot_shift(p@, name_start(p@) + 1);
    }
    match dot {
        Some(d) => {
            if d > start {
                Some(String::from_str(p.substring_char(d + 1, n)))
            } else {
                None
            }
        },
        None => None,
    }
}

/// `p` with its extension replaced by `ext`; fails when the final component
/// has no stem to build on.
pub fn with_extension(p: &str, ext: &str) -> (r: Result<String, DispatchError>)
    ensures
        has_stem(p@) ==> (r matches Ok(q) && q@ == with_ext_view(p@, ext@)),
        !has_stem(p@) ==> (r matches Err(e) && e == DispatchError::Naming),
{
    let n = p.unicode_len();
    let start = name_start_of(p);
    let name_len = n - start;
    if name_len == 0 {
        proof {
            assert(name_view(p@) =~= Seq::<char>::empty());
        }
        return Err(DispatchError::Naming);
    }
    if name_len == 1 && p.get_char(start) == '.' {
        proof {
            assert(name_view(p@) =~= seq!['.']);
        }
        return Err(DispatchError::Naming);
    }
    if name_len == 2 && p.get_char(start) == '.' && p.get_char(start + 1) == '.' {
        proof {
            assert(name_view(p@) =~= seq!['.', '.']);
        }
        return Err(DispatchError::Naming);
    }
    proof {
        assert(has_stem(p@)) by {
            assert(name_view(p@).len() == n - start);
            if name_len == 1 {
                assert(name_view(p@)[0] == p@[start as int]);
            }
            if name_len == 2 {
                assert(name_view(p@)[0] == p@[start as int]);
                assert(name_view(p@)[1] == p@[start as int + 1]);
            }
        }
    }
    let dot = last_dot_of(p);
    proof {
        lemma_last_dot_shift(p@, name_start(p@) + 1);
    }
    let base_end: usize = match dot {
        Some(d) => {
            if d > start {
                d
            } else {
                n
            }
        },
        None => n,
    };
    let mut out = String::from_str(p.substring_char(0, base_end));
    out.append(".");
    out.append(ext);
    proof {
        reveal_strlit(".");
        assert("."@ =~= seq!['.']);
        assert(out@ =~= with_ext_view(p@, ext@));
    }
    Ok(out)
}

} // verus!
