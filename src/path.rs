//! Entry names as paths: splitting into components, the enclosed-name check
//! and the mangled (sanitized) name.
use crate::text::push_char;
use vstd::prelude::*;

verus! {

/// The pieces of `s` between slashes, empty ones included.
pub open spec fn segments(s: Seq<char>) -> Seq<Seq<char>>
    decreases s.len(),
{
    if s.len() == 0 {
        seq![Seq::empty()]
    } else {
        let prev = segments(s.drop_last());
        if s.last() == '/' {
            prev.push(Seq::empty())
        } else {
            prev.update(prev.len() - 1, prev.last().push(s.last()))
        }
    }
}

/// A piece that names no component: empty (doubled or trailing slash) or `.`.
pub open spec fn is_skipped(p: Seq<char>) -> bool {
    p.len() == 0 || (p.len() == 1 && p[0] == '.')
}

/// A piece that names the parent directory: `..`.
pub open spec fn is_parent(p: Seq<char>) -> bool {
    p.len() == 2 && p[0] == '.' && p[1] == '.'
}

/// The depth that the pieces `segs` reach below their start, or `None` where
/// a parent reference climbs above it.
pub open spec fn walk(segs: Seq<Seq<char>>) -> Option<nat>
    decreases segs.len(),
{
    if segs.len() == 0 {
        Some(0)
    } else {
        match walk(segs.drop_last()) {
            None => None,
            Some(d) => {
                let p = segs.last();
                if is_skipped(p) {
                    Some(d)
                } else if is_parent(p) {
                    if d == 0 {
                        None
                    } else {
                        Some((d - 1) as nat)
                    }
                } else {
                    Some(d + 1)
                }
            },
        }
    }
}

/// The directory that following the pieces `segs` from `base` leads to:
/// a name goes down into it, a parent reference goes up (not above the root).
pub open spec fn resolve(base: Seq<Seq<char>>, segs: Seq<Seq<char>>) -> Seq<Seq<char>>
    decreases segs.len(),
{
    if segs.len() == 0 {
        base
    } else {
        let prev = resolve(base, segs.drop_last());
        let p = segs.last();
        if is_skipped(p) {
            prev
        } else if is_parent(p) {
            if prev.len() > 0 {
                prev.drop_last()
            } else {
                prev
            }
        } else {
            prev.push(p)
        }
    }
}

/// `name` is a relative path without NUL that never climbs above its start.
pub open spec fn is_enclosed(name: Seq<char>) -> bool {
    &&& !name.contains('\0')
    &&& !(name.len() > 0 && name[0] == '/')
    &&& walk(segments(name)) is Some
}

/// The pieces of `segs` that name a directory or file.
pub open spec fn normals(segs: Seq<Seq<char>>) -> Seq<Seq<char>>
    decreases segs.len(),
{
    if segs.len() == 0 {
        Seq::empty()
    } else {
        let prev = normals(segs.drop_last());
        if is_skipped(segs.last()) || is_parent(segs.last()) {
            prev
        } else {
            prev.push(segs.last())
        }
    }
}

/// The pieces `parts` joined by slashes.
pub open spec fn join(parts: Seq<Seq<char>>) -> Seq<char>
    decreases parts.len(),
{
    if parts.len() == 0 {
        Seq::empty()
    } else if parts.len() == 1 {
        parts[0]
    } else {
        join(parts.drop_last()).push('/') + parts.last()
    }
}

/// `s` cut at its first NUL, with each backslash read as a slash.
pub open spec fn cleaned(s: Seq<char>) -> Seq<char>
    decreases s.len(),
{
    if s.len() == 0 || s[0] == '\0' {
        Seq::empty()
    } else {
        seq![if s[0] == '\\' { '/' } else { s[0] }] + cleaned(s.drop_first())
    }
}

/// The mangled form of `name`: its normal components, joined.
pub open spec fn mangled(name: Seq<char>) -> Seq<char> {
    join(normals(segments(cleaned(name))))
}

/// Splits `c` at each slash.
pub fn split_segments(c: &[char]) -> (r: Vec<Vec<char>>)
    ensures
        r@.map_values(|v: Vec<char>| v@) == segments(c@),
{
    let mut done: Vec<Vec<char>> = Vec::new();
    let mut cur: Vec<char> = Vec::new();
    let mut i: usize = 0;
    while i < c.len()
        invariant
            i <= c@.len(),
            segments(c@.subrange(0, i as int)) == done@.map_values(|v: Vec<char>| v@).push(cur@),
        decreases c@.len() - i,
    {
        let ghost prefix = c@.subrange(0, i + 1);
        proof {
            assert(prefix.drop_last() == c@.subrange(0, i as int));
        }
        if c[i] == '/' {
            let mut full: Vec<char> = Vec::new();
            std::mem::swap(&mut full, &mut cur);
            done.push(full);
            proof {
                assert(done@.map_values(|v: Vec<char>| v@).push(cur@) =~= segments(prefix));
            }
        } else {
            cur.push(c[i]);
            proof {
                assert(done@.map_values(|v: Vec<char>| v@).push(cur@) =~= segments(prefix));
            }
        }
        i = i + 1;
    }
    done.push(cur);
    proof {
        assert(c@.subrange(0, c@.len() as int) == c@);
        assert(done@.map_values(|v: Vec<char>| v@) =~= segments(c@));
    }
    done
}

fn skipped(p: &Vec<char>) -> (r: bool)
    ensures
        r == is_skipped(p@),
{
    p.len() == 0 || (p.len() == 1 && p[0] == '.')
}

fn parent(p: &Vec<char>) -> (r: bool)
    ensures
        r == is_parent(p@),
{
    p.len() == 2 && p[0] == '.' && p[1] == '.'
}

/// Whether `name` is safe to use as a relative path (see [`is_enclosed`]).
pub fn enclosed(name: &[char]) -> (r: bool)
    ensures
        r == is_enclosed(name@),
{
    let mut i: usize = 0;
    while i < name.len()
        invariant
            i <= name@.len(),
            forall|k: int| 0 <= k < i ==> name@[k] != '\0',
        decreases name@.len() - i,
    {
        if name[i] == '\0' {
            return false;
        }
        i = i + 1;
    }
    if name.len() > 0 && name[0] == '/' {
        return false;
    }
    let segs = split_segments(name);
    let ghost all = segs@.map_values(|v: Vec<char>| v@);
    let mut depth: usize = 0;
    let mut j: usize = 0;
    while j < segs.len()
        invariant
            j <= segs@.len() == all.len(),
            all == segs@.map_values(|v: Vec<char>| v@),
            all == segments(name@),
            !name@.contains('\0'),
            !(name@.len() > 0 && name@[0] == '/'),
            depth <= j,
            walk(all.subrange(0, j as int)) == Some(depth as nat),
        decreases segs@.len() - j,
    {
        proof {
            assert(all.subrange(0, j + 1).drop_last() == all.subrange(0, j as int));
        }
        let p = &segs[j];
        if skipped(p) {
        } else if parent(p) {
            if depth == 0 {
                proof {
                    assert(all.subrange(0, j + 1).last() == p@);
                    assert(walk(all.subrange(0, j + 1)) is None);
                    lemma_walk_none_extends(all, j + 1);
                    assert(all.subrange(0, all.len() as int) == all);
                }
                return false;
            }
            depth = depth - 1;
        } else {
            depth = depth + 1;
        }
        j = j + 1;
    }
    proof {
        assert(all.subrange(0, all.len() as int) == all);
    }
    true
}

/// Once the walk climbs above its start, longer walks do too.
proof fn lemma_walk_none_extends(segs: Seq<Seq<char>>, k: int)
    requires
        0 <= k <= segs.len(),
        walk(segs.subrange(0, k)) is None,
    ensures
        walk(segs) is None,
    decreases segs.len() - k,
{
    if k < segs.len() {
        assert(segs.subrange(0, k + 1).drop_last() == segs.subrange(0, k));
        lemma_walk_none_extends(segs, k + 1);
    } else {
        assert(segs.subrange(0, k) == segs);
    }
}

/// `name` cut at its first NUL, with each backslash read as a slash.
fn clean_name(name: &[char]) -> (r: Vec<char>)
    ensures
        r@ == cleaned(name@),
{
    let mut clean: Vec<char> = Vec::new();
    let mut i: usize = 0;
    proof {
        assert(name@.subrange(0, name@.len() as int) == name@);
    }
    while i < name.len() && name[i] != '\0'
        invariant
            i <= name@.len(),
            clean@ + cleaned(name@.subrange(i as int, name@.len() as int)) == cleaned(name@),
        decreases name@.len() - i,
    {
        let ghost rest = name@.subrange(i as int, name@.len() as int);
        proof {
            assert(rest.drop_first() == name@.subrange(i + 1, name@.len() as int));
        }
        clean.push(if name[i] == '\\' { '/' } else { name[i] });
        proof {
            assert(clean@ + cleaned(rest.drop_first()) =~= cleaned(name@));
        }
        i = i + 1;
    }
    proof {
        assert(clean@ =~= cleaned(name@));
    }
    clean
}

/// Appends the characters of `p` to `out`.
fn append_chars(out: &mut String, p: &Vec<char>)
    ensures
        final(out)@ == old(out)@ + p@,
{
    let mut k: usize = 0;
    while k < p.len()
        invariant
            k <= p@.len(),
            out@ == old(out)@ + p@.subrange(0, k as int),
        decreases p@.len() - k,
    {
        push_char(out, p[k]);
        proof {
            assert(p@.subrange(0, k + 1) == p@.subrange(0, k as int).push(p@[k as int]));
            assert(out@ =~= old(out)@ + p@.subrange(0, k + 1));
        }
        k = k + 1;
    }
    proof {
        assert(p@.subrange(0, p@.len() as int) == p@);
    }
}

/// The normal pieces of `segs` joined by slashes.
fn join_normals(segs: &Vec<Vec<char>>) -> (r: String)
    ensures
        r@ == join(normals(segs@.map_values(|v: Vec<char>| v@))),
{
    let ghost all = segs@.map_values(|v: Vec<char>| v@);
    let mut out = String::new();
    let mut count: usize = 0;
    let mut j: usize = 0;
    while j < segs.len()
        invariant
            j <= segs@.len() == all.len(),
            all == segs@.map_values(|v: Vec<char>| v@),
            count == normals(all.subrange(0, j as int)).len(),
            count <= j,
            out@ == join(normals(all.subrange(0, j as int))),
        decreases segs@.len() - j,
    {
        proof {
            assert(all.subrange(0, j + 1).drop_last() == all.subrange(0, j as int));
            assert(all.subrange(0, j + 1).last() == segs@[j as int]@);
        }
        let p = &segs[j];
        if !skipped(p) && !parent(p) {
            if count > 0 {
                push_char(&mut out, '/');
            }
            append_chars(&mut out, p);
            proof {
                let n = normals(all.subrange(0, j + 1));
                assert(n.drop_last() == normals(all.subrange(0, j as int)));
                assert(out@ =~= join(n));
            }
            count = count + 1;
        }
        j = j + 1;
    }
    proof {
        assert(all.subrange(0, all.len() as int) == all);
    }
    out
}

/// The normal components of `name` (cut at NUL, backslashes read as
/// slashes), joined by slashes.
pub fn mangle(name: &[char]) -> (r: String)
    ensures
        r@ == mangled(name@),
{
    let clean = clean_name(name);
    let segs = split_segments(clean.as_slice());
    join_normals(&segs)
}

/// Following an enclosed name from any directory `dir` stays inside `dir`:
/// the result starts with `dir`.
pub proof fn lemma_enclosed_stays_inside(name: Seq<char>, dir: Seq<Seq<char>>)
    requires
        is_enclosed(name),
    ensures
        resolve(dir, segments(name)).len() >= dir.len(),
        resolve(dir, segments(name)).subrange(0, dir.len() as int) == dir,
{
    lemma_walk_resolve(dir, segments(name));
}

/// A walk that reaches depth `k` lands `k` levels below `dir`.
proof fn lemma_walk_resolve(dir: Seq<Seq<char>>, segs: Seq<Seq<char>>)
    requires
        walk(segs) is Some,
    ensures
        resolve(dir, segs).len() == dir.len() + walk(segs)->0,
        resolve(dir, segs).subrange(0, dir.len() as int) == dir,
    decreases segs.len(),
{
    if segs.len() == 0 {
        assert(dir.subrange(0, dir.len() as int) == dir);
    } else {
        lemma_walk_resolve(dir, segs.drop_last());
        let prev = resolve(dir, segs.drop_last());
        assert(prev.subrange(0, dir.len() as int) == dir);
        if !is_skipped(segs.last()) && !is_parent(segs.last()) {
            assert(prev.push(segs.last()).subrange(0, dir.len() as int) == prev.subrange(
                0,
                dir.len() as int,
            ));
        } else if is_parent(segs.last()) {
            assert(prev.drop_last().subrange(0, dir.len() as int) == prev.subrange(
                0,
                dir.len() as int,
            ));
        }
    }
}

} // verus!
