//! UNIX paths as byte strings.
//!
//! Two paths are the same path when they have the same components: repeated separators, trailing
//! separators and `.` segments that do not lead the path make no difference.

use vstd::prelude::*;

use crate::bytes::bytes_eq;

verus! {

/// The separator `/`.
pub const SEPARATOR: u8 = 47;

/// The byte `.`.
pub const DOT: u8 = 46;

/// What a path means: whether it starts at the root, whether it starts with an explicit `.`, and
/// the names along it.
#[verifier::ext_equal]
pub struct PathView {
    pub rooted: bool,
    pub dotted: bool,
    pub names: Seq<Seq<u8>>,
}

/// The number of bytes before the first separator of `p`.
pub open spec fn head_len(p: Seq<u8>) -> int
    decreases p.len(),
{
    if p.len() == 0 || p[0] == SEPARATOR {
        0
    } else {
        1 + head_len(p.skip(1))
    }
}

/// Whether a segment between separators counts as a name: not empty and not `.`.
pub open spec fn is_name(segment: Seq<u8>) -> bool {
    segment.len() > 0 && segment != seq![DOT]
}

/// The names of `p` in order: its segments between separators, without empty ones and `.`.
pub open spec fn names(p: Seq<u8>) -> Seq<Seq<u8>>
    decreases p.len(),
{
    if p.len() == 0 {
        Seq::empty()
    } else if p[0] == SEPARATOR {
        names(p.skip(1))
    } else {
        let n = head_len(p);
        if 0 < n <= p.len() {
            let first = if is_name(p.take(n)) {
                seq![p.take(n)]
            } else {
                Seq::empty()
            };
            first + names(p.skip(n))
        } else {
            Seq::empty()
        }
    }
}

/// The components of the path `p`.
pub open spec fn components(p: Seq<u8>) -> PathView {
    PathView {
        rooted: p.len() > 0 && p[0] == SEPARATOR,
        dotted: p.len() > 0 && p[0] == DOT && (p.len() == 1 || p[1] == SEPARATOR),
        names: names(p),
    }
}

/// The path that `name` has inside the directory `dir`. A rooted `name` stands for itself.
pub open spec fn joined(dir: Seq<u8>, name: Seq<u8>) -> Seq<u8> {
    if components(name).rooted {
        name
    } else if dir.len() == 0 || dir.last() == SEPARATOR {
        dir + name
    } else {
        dir + seq![SEPARATOR] + name
    }
}

/// Whether `name` can be the name of a single directory entry.
pub open spec fn is_entry(name: Seq<u8>) -> bool {
    is_name(name) && !name.contains(SEPARATOR)
}

proof fn lemma_head_len(p: Seq<u8>)
    ensures
        0 <= head_len(p) <= p.len(),
        head_len(p) < p.len() ==> p[head_len(p)] == SEPARATOR,
        forall|i: int| 0 <= i < head_len(p) ==> p[i] != SEPARATOR,
    decreases p.len(),
{
    if p.len() == 0 || p[0] == SEPARATOR {
    } else {
        let q = p.skip(1);
        lemma_head_len(q);
        assert forall|i: int| 0 <= i < head_len(p) implies p[i] != SEPARATOR by {
            if i > 0 {
                assert(q[i - 1] == p[i]);
            }
        }
    }
}

proof fn lemma_head_len_is(p: Seq<u8>, n: int)
    requires
        0 <= n <= p.len(),
        n < p.len() ==> p[n] == SEPARATOR,
        forall|i: int| 0 <= i < n ==> p[i] != SEPARATOR,
    ensures
        head_len(p) == n,
{
    lemma_head_len(p);
}

/// Finds the next name of `p` at or after `from`: where it starts and where it ends.
fn next_name(p: &[u8], from: usize) -> (r: Option<(usize, usize)>)
    requires
        from <= p@.len(),
    ensures
        match r {
            None => names(p@.skip(from as int)) == Seq::<Seq<u8>>::empty(),
            Some((start, end)) => {
                &&& from <= start < end <= p@.len()
                &&& names(p@.skip(from as int)) == seq![p@.subrange(start as int, end as int)]
                    + names(p@.skip(end as int))
            },
        },
{
    let mut start: usize = from;
    while start < p.len()
        invariant
            from <= start <= p@.len(),
            names(p@.skip(from as int)) == names(p@.skip(start as int)),
        decreases p@.len() - start,
    {
        let ghost rest = p@.skip(start as int);
        if p[start] == SEPARATOR {
            assert(rest.skip(1) =~= p@.skip(start + 1));
            start += 1;
        } else {
            let mut end: usize = start + 1;
            while end < p.len() && p[end] != SEPARATOR
                invariant
                    start < end <= p@.len(),
                    forall|i: int| start <= i < end ==> p@[i] != SEPARATOR,
                decreases p@.len() - end,
            {
                end += 1;
            }
            proof {
                lemma_head_len_is(rest, end - start);
                assert(rest.take(end - start) =~= p@.subrange(start as int, end as int));
                assert(rest.skip(end - start) =~= p@.skip(end as int));
            }
            if end - start == 1 && p[start] == DOT {
                proof {
                    assert(rest.take(1) =~= seq![DOT]);
                    assert(names(rest) =~= names(p@.skip(end as int)));
                }
                start = end;
            } else {
                proof {
                    let segment = rest.take(end - start);
                    if segment == seq![DOT] {
                        assert(segment[0] == DOT);
                        assert(segment.len() == 1);
                    }
                }
                return Some((start, end));
            }
        }
    }
    assert(p@.skip(start as int).len() == 0);
    None
}

/// Whether two paths have the same names in the same order.
fn names_eq(a: &[u8], b: &[u8]) -> (r: bool)
    ensures
        r == (names(a@) == names(b@)),
{
    let mut i: usize = 0;
    let mut j: usize = 0;
    let ghost mut common: Seq<Seq<u8>> = Seq::empty();
    assert(a@.skip(0) =~= a@);
    assert(b@.skip(0) =~= b@);
    assert(names(a@) =~= common + names(a@.skip(0)));
    assert(names(b@) =~= common + names(b@.skip(0)));
    loop
        invariant
            i <= a@.len(),
            j <= b@.len(),
            names(a@) == common + names(a@.skip(i as int)),
            names(b@) == common + names(b@.skip(j as int)),
        decreases a@.len() - i,
    {
        let ghost n = common.len() as int;
        match (next_name(a, i), next_name(b, j)) {
            (None, None) => {
                return true;
            },
            (Some((start_a, end_a)), Some((start_b, end_b))) => {
                let name_a = vstd::slice::slice_subrange(a, start_a, end_a);
                let name_b = vstd::slice::slice_subrange(b, start_b, end_b);
                proof {
                    assert(names(a@)[n] == name_a@);
                    assert(names(b@)[n] == name_b@);
                }
                if !bytes_eq(name_a, name_b) {
                    return false;
                }
                proof {
                    common = common.push(name_a@);
                    assert(names(a@) =~= common + names(a@.skip(end_a as int)));
                    assert(names(b@) =~= common + names(b@.skip(end_b as int)));
                }
                i = end_a;
                j = end_b;
            },
            _ => {
                assert(names(a@).len() != names(b@).len());
                return false;
            },
        }
    }
}

fn is_rooted(p: &[u8]) -> (r: bool)
    ensures
        r == components(p@).rooted,
{
    p.len() > 0 && p[0] == SEPARATOR
}

fn is_dotted(p: &[u8]) -> (r: bool)
    ensures
        r == components(p@).dotted,
{
    p.len() > 0 && p[0] == DOT && (p.len() == 1 || p[1] == SEPARATOR)
}

/// Whether two paths are the same path, component by component.
pub fn path_eq(a: &[u8], b: &[u8]) -> (r: bool)
    ensures
        r == (components(a@) == components(b@)),
{
    is_rooted(a) == is_rooted(b) && is_dotted(a) == is_dotted(b) && names_eq(a, b)
}

/// The path of `name` inside `dir`.
pub fn join(dir: &[u8], name: &[u8]) -> (r: Vec<u8>)
    ensures
        r@ == joined(dir@, name@),
{
    let mut path: Vec<u8> = Vec::new();
    if !is_rooted(name) {
        path.extend_from_slice(dir);
        assert(path@ =~= dir@);
        if dir.len() > 0 && dir[dir.len() - 1] != SEPARATOR {
            path.push(SEPARATOR);
        }
    }
    let ghost start = path@;
    path.extend_from_slice(name);
    assert(path@ =~= start + name@);
    assert(path@ =~= joined(dir@, name@));
    path
}

/// The names of two paths put together are the names of the first, then those of the second.
pub proof fn names_concatenate(a: Seq<u8>, b: Seq<u8>)
    ensures
        names(a + seq![SEPARATOR] + b) == names(a) + names(b),
    decreases a.len(),
{
    let whole = a + seq![SEPARATOR] + b;
    if a.len() == 0 {
        assert(whole.skip(1) =~= b);
        assert(names(whole) == names(b));
        assert(names(a) + names(b) =~= names(b));
    } else if a[0] == SEPARATOR {
        assert(whole.skip(1) =~= a.skip(1) + seq![SEPARATOR] + b);
        names_concatenate(a.skip(1), b);
    } else {
        let n = head_len(a);
        lemma_head_len(a);
        lemma_head_len_is(whole, n);
        assert(whole.take(n) =~= a.take(n));
        assert(whole.skip(n) =~= a.skip(n) + seq![SEPARATOR] + b);
        names_concatenate(a.skip(n), b);
        assert(names(whole) =~= names(a) + names(b));
    }
}

/// A directory entry's path names the directory's names and then the entry.
pub proof fn entry_is_last_name(dir: Seq<u8>, name: Seq<u8>)
    requires
        is_entry(name),
    ensures
        names(joined(dir, name)) == names(dir).push(name),
{
    assert(name[0] != SEPARATOR);
    lemma_head_len_is(name, name.len() as int);
    assert(name.take(name.len() as int) =~= name);
    assert(name.skip(name.len() as int) =~= Seq::<u8>::empty());
    assert(names(Seq::<u8>::empty()) =~= Seq::<Seq<u8>>::empty());
    assert(names(name) =~= seq![name]);
    if dir.len() == 0 {
        assert(dir + name =~= name);
    } else if dir.last() == SEPARATOR {
        let front = dir.drop_last();
        assert(dir =~= front + seq![SEPARATOR] + Seq::<u8>::empty());
        names_concatenate(front, Seq::empty());
        assert(dir + name =~= front + seq![SEPARATOR] + name);
        names_concatenate(front, name);
        assert(names(dir) =~= names(front));
    } else {
        names_concatenate(dir, name);
    }
    assert(names(joined(dir, name)) =~= names(dir).push(name));
}

/// Different entries of one directory have different paths.
pub proof fn entries_differ(dir: Seq<u8>, name: Seq<u8>, other: Seq<u8>)
    requires
        is_entry(name),
        is_entry(other),
        name != other,
    ensures
        components(joined(dir, name)) != components(joined(dir, other)),
{
    entry_is_last_name(dir, name);
    entry_is_last_name(dir, other);
    assert(names(dir).push(name).last() != names(dir).push(other).last());
}

/// A path without separators has itself as its only name, unless it is empty or `.`. Together with
/// [`names_concatenate`] this says what the names of every path are.
pub proof fn names_without_separator(p: Seq<u8>)
    requires
        !p.contains('/' as u8),
    ensures
        names(p) == if p.len() == 0 || (p.len() == 1 && p[0] == '.' as u8) {
            Seq::<Seq<u8>>::empty()
        } else {
            seq![p]
        },
{
    assert forall|i: int| 0 <= i < p.len() implies p[i] != SEPARATOR by {
        assert(p.contains(p[i]));
    }
    if p.len() > 0 {
        lemma_head_len_is(p, p.len() as int);
        assert(p.take(p.len() as int) =~= p);
        assert(p.skip(p.len() as int) =~= Seq::<u8>::empty());
        assert(names(Seq::<u8>::empty()) =~= Seq::<Seq<u8>>::empty());
        if p.len() == 1 && p[0] == '.' as u8 {
            assert(p =~= seq![DOT]);
        } else if p == seq![DOT] {
            assert(p[0] == DOT);
        }
        assert(names(p) =~= if p.len() == 1 && p[0] == '.' as u8 {
            Seq::<Seq<u8>>::empty()
        } else {
            seq![p]
        });
    }
}

/// The separator is `/`: a path split anywhere at a `/` has the names of its two parts.
pub proof fn names_split_at_slash(p: Seq<u8>, i: int)
    requires
        0 <= i < p.len(),
        p[i] == '/' as u8,
    ensures
        names(p) == names(p.take(i)) + names(p.skip(i + 1)),
{
    assert(p =~= p.take(i) + seq![SEPARATOR] + p.skip(i + 1));
    names_concatenate(p.take(i), p.skip(i + 1));
}

/// What makes two paths the same: both or neither start with `/`, both or neither are `.` or start
/// with `./`, and they have the same names.
pub proof fn same_path_means(a: Seq<u8>, b: Seq<u8>)
    ensures
        components(a) == components(b) <==> {
            &&& (a.len() > 0 && a[0] == '/' as u8) == (b.len() > 0 && b[0] == '/' as u8)
            &&& (a == seq!['.' as u8] || (a.len() > 1 && a[0] == '.' as u8 && a[1] == '/' as u8))
                == (b == seq!['.' as u8] || (b.len() > 1 && b[0] == '.' as u8 && b[1]
                == '/' as u8))
            &&& names(a) == names(b)
        },
{
    lemma_dotted(a);
    lemma_dotted(b);
}

proof fn lemma_dotted(p: Seq<u8>)
    ensures
        components(p).dotted == (p == seq!['.' as u8] || (p.len() > 1 && p[0] == '.' as u8 && p[1]
            == '/' as u8)),
{
    if p.len() == 1 && p[0] == '.' as u8 {
        assert(p =~= seq!['.' as u8]);
    }
}

} // verus!
