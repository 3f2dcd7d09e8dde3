//! Destination paths: where a source file lands under the destination root.

use vstd::prelude::*;
use crate::fingerprint::{decimal, decimal_chars};
use crate::text::{chars_of, string_from_chars};

verus! {

/// Drops leading `/`, `./` and `../` steps, so that what is left is relative.
pub open spec fn strip_leading_steps(p: Seq<char>) -> Seq<char>
    decreases p.len(),
{
    if p.len() >= 1 && p[0] == '/' {
        strip_leading_steps(p.skip(1))
    } else if p.len() >= 2 && p[0] == '.' && p[1] == '/' {
        strip_leading_steps(p.skip(2))
    } else if p.len() >= 3 && p[0] == '.' && p[1] == '.' && p[2] == '/' {
        strip_leading_steps(p.skip(3))
    } else {
        p
    }
}

/// `path` lies strictly below the directory `root`.
pub open spec fn is_under(root: Seq<char>, path: Seq<char>) -> bool {
    &&& root.len() > 0
    &&& path.len() > root.len() + 1
    &&& path.take(root.len() as int) == root
    &&& (root.last() == '/' || path[root.len() as int] == '/')
}

/// The part of `path` after `root` and its separator.
pub open spec fn below(root: Seq<char>, path: Seq<char>) -> Seq<char> {
    if root.last() == '/' {
        path.skip(root.len() as int)
    } else {
        path.skip(root.len() as int + 1)
    }
}

/// The position of `path` relative to `root`; a path not below `root` falls
/// back to itself with its leading `/`, `./` and `../` steps removed.
pub open spec fn relative_part(root: Seq<char>, path: Seq<char>) -> Seq<char> {
    if is_under(root, path) {
        below(root, path)
    } else {
        strip_leading_steps(path)
    }
}

/// `rel` appended to the directory `dir`, with one separator between them.
pub open spec fn join(dir: Seq<char>, rel: Seq<char>) -> Seq<char> {
    if dir.len() > 0 && dir.last() == '/' {
        dir + rel
    } else {
        dir.push('/') + rel
    }
}

/// Index of the last `c` in `s`, or `-1` when there is none.
pub open spec fn last_index_of(s: Seq<char>, c: char) -> int
    decreases s.len(),
{
    if s.len() == 0 {
        -1
    } else if s.last() == c {
        s.len() - 1
    } else {
        last_index_of(s.drop_last(), c)
    }
}

/// `rel` with the decimal fingerprint and a dash put before its base name.
pub open spec fn prefixed(rel: Seq<char>, h: nat) -> Seq<char> {
    let k = last_index_of(rel, '/');
    rel.take(k + 1) + decimal(h).push('-') + rel.skip(k + 1)
}

/// Where a source file goes: the destination root joined with its relative
/// position, the base name optionally carrying the fingerprint.
pub open spec fn destination(
    dst_root: Seq<char>,
    src_root: Seq<char>,
    path: Seq<char>,
    prefix: Option<u128>,
) -> Seq<char> {
    let rel = relative_part(src_root, path);
    match prefix {
        Some(h) => join(dst_root, prefixed(rel, h as nat)),
        None => join(dst_root, rel),
    }
}

/// The name an existing destination file is moved to before it is replaced:
/// `Copy-<millis>-<name>` in the same directory.
pub open spec fn backup_of(dest: Seq<char>, millis: u64) -> Seq<char> {
    let k = last_index_of(dest, '/');
    dest.take(k + 1) + seq!['C', 'o', 'p', 'y', '-'] + decimal(millis as nat).push('-')
        + dest.skip(k + 1)
}

/// Copies `v[from..to]`.
pub(crate) fn slice_of(v: &Vec<char>, from: usize, to: usize) -> (r: Vec<char>)
    requires
        from <= to <= v@.len(),
    ensures
        r@ == v@.subrange(from as int, to as int),
{
    let mut out: Vec<char> = Vec::new();
    let mut i: usize = from;
    while i < to
        invariant
            from <= i <= to <= v@.len(),
            out@ == v@.subrange(from as int, i as int),
        decreases to - i,
    {
        out.push(v[i]);
        i = i + 1;
    }
    out
}

/// Appends `src` to `dst`.
fn append(dst: &mut Vec<char>, src: &Vec<char>)
    ensures
        final(dst)@ == old(dst)@ + src@,
{
    let mut i: usize = 0;
    while i < src.len()
        invariant
            i <= src@.len(),
            dst@ == old(dst)@ + src@.subrange(0, i as int),
        decreases src@.len() - i,
    {
        dst.push(src[i]);
        i = i + 1;
    }
    assert(src@.subrange(0, src@.len() as int) == src@);
}

fn strip_steps(p: &Vec<char>) -> (r: Vec<char>)
    ensures
        r@ == strip_leading_steps(p@),
{
    let mut i: usize = 0;
    let n = p.len();
    assert(p@.skip(0) == p@);
    loop
        invariant
            n == p@.len(),
            i <= n,
            strip_leading_steps(p@.skip(i as int)) == strip_leading_steps(p@),
        decreases n - i,
    {
        let ghost rest = p@.skip(i as int);
        if n - i >= 1 && p[i] == '/' {
            assert(rest.skip(1) == p@.skip(i + 1));
            i = i + 1;
        } else if n - i >= 2 && p[i] == '.' && p[i + 1] == '/' {
            assert(rest.skip(2) == p@.skip(i + 2));
            i = i + 2;
        } else if n - i >= 3 && p[i] == '.' && p[i + 1] == '.' && p[i + 2] == '/' {
            assert(rest.skip(3) == p@.skip(i + 3));
            i = i + 3;
        } else {
            let r = slice_of(p, i, n);
            assert(r@ == rest);
            return r;
        }
    }
}

fn under(root: &Vec<char>, path: &Vec<char>) -> (r: bool)
    ensures
        r == is_under(root@, path@),
{
    let n = root.len();
    if n == 0 || path.len() <= n || path.len() - n <= 1 {
        return false;
    }
    let mut i: usize = 0;
    while i < n
        invariant
            n == root@.len(),
            n < path@.len(),
            i <= n,
            path@.take(i as int) == root@.take(i as int),
        decreases n - i,
    {
        if path[i] != root[i] {
            assert(path@.take(n as int)[i as int] != root@[i as int]);
            return false;
        }
        assert(path@.take(i + 1) == path@.take(i as int).push(path@[i as int]));
        assert(root@.take(i + 1) == root@.take(i as int).push(root@[i as int]));
        i = i + 1;
    }
    assert(root@.take(n as int) == root@);
    root[n - 1] == '/' || path[n] == '/'
}

/// `last_index_of` is `-1` or a valid index.
pub proof fn lemma_last_index_range(s: Seq<char>, c: char)
    ensures
        -1 <= last_index_of(s, c) < s.len(),
    decreases s.len(),
{
    if s.len() > 0 {
        lemma_last_index_range(s.drop_last(), c);
    }
}

/// Index of the last `c` in `s`, when there is one.
pub(crate) fn find_last(s: &Vec<char>, c: char) -> (r: Option<usize>)
    ensures
        match r {
            Some(k) => k as int == last_index_of(s@, c),
            None => last_index_of(s@, c) == -1,
        },
{
    let mut i: usize = s.len();
    assert(s@.take(i as int) == s@);
    while i > 0
        invariant
            i <= s@.len(),
            last_index_of(s@, c) == last_index_of(s@.take(i as int), c),
        decreases i,
    {
        let ghost t = s@.take(i as int);
        assert(t.drop_last() == s@.take(i - 1));
        if s[i - 1] == c {
            return Some(i - 1);
        }
        i = i - 1;
    }
    None
}

fn relative(root: &Vec<char>, path: &Vec<char>) -> (r: Vec<char>)
    ensures
        r@ == relative_part(root@, path@),
{
    if under(root, path) {
        let n = root.len();
        let m = path.len();
        assert(m > n + 1);
        if root[n - 1] == '/' {
            slice_of(path, n, path.len())
        } else {
            slice_of(path, n + 1, path.len())
        }
    } else {
        strip_steps(path)
    }
}

fn join_chars(dir: &Vec<char>, rel: &Vec<char>) -> (r: Vec<char>)
    ensures
        r@ == join(dir@, rel@),
{
    let mut out = slice_of(dir, 0, dir.len());
    assert(dir@.subrange(0, dir@.len() as int) == dir@);
    if !(dir.len() > 0 && dir[dir.len() - 1] == '/') {
        out.push('/');
    }
    append(&mut out, rel);
    out
}

/// `s` with `lead` inserted before the part that follows its last `/`.
fn insert_before_name(s: &Vec<char>, lead: &Vec<char>) -> (r: Vec<char>)
    ensures
        r@ == s@.take(last_index_of(s@, '/') + 1) + lead@ + s@.skip(
            last_index_of(s@, '/') + 1,
        ),
{
    let len = s.len();
    proof {
        lemma_last_index_range(s@, '/');
    }
    let cut: usize = match find_last(s, '/') {
        Some(k) => k + 1,
        None => 0,
    };
    let mut out = slice_of(s, 0, cut);
    append(&mut out, lead);
    let tail = slice_of(s, cut, s.len());
    append(&mut out, &tail);
    out
}

/// Computes the destination of the source file `path`.
pub fn destination_path(dst_root: &str, src_root: &str, path: &str, prefix: Option<u128>) -> (r:
    String)
    ensures
        r@ == destination(dst_root@, src_root@, path@, prefix),
{
    let dst = chars_of(dst_root);
    let src = chars_of(src_root);
    let p = chars_of(path);
    let rel = relative(&src, &p);
    let named = match prefix {
        Some(h) => {
            let mut lead = decimal_chars(h);
            lead.push('-');
            insert_before_name(&rel, &lead)
        },
        None => rel,
    };
    string_from_chars(&join_chars(&dst, &named))
}

/// Computes the backup name for the destination file `dest`.
pub fn backup_path(dest: &str, millis: u64) -> (r: String)
    ensures
        r@ == backup_of(dest@, millis),
{
    let d = chars_of(dest);
    let mut lead: Vec<char> = Vec::new();
    lead.push('C');
    lead.push('o');
    lead.push('p');
    lead.push('y');
    lead.push('-');
    let digits = decimal_chars(millis as u128);
    append(&mut lead, &digits);
    lead.push('-');
    let r = insert_before_name(&d, &lead);
    assert(lead@ == seq!['C', 'o', 'p', 'y', '-'] + decimal(millis as nat).push('-'));
    string_from_chars(&r)
}

} // verus!
