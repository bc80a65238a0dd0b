//! The path arithmetic the compiler does on module files, over `/`-separated
//! path strings: the directory of a file, a file next to it, and the `.py`
//! file that goes with a source file.

use vstd::prelude::*;
use crate::text::{chars_of, push_str, string_from_chars};

verus! {

/// The index of the last `c` in `s`, or -1 where there is none.
pub open spec fn last_index_of(s: Seq<char>, c: char) -> int
    decreases s.len(),
{
    if s.len() == 0 {
        -1
    } else if s.last() == c {
        s.len() - 1
    } else {
        last_index_of(s.drop_last(), c)
    }
}

pub proof fn lemma_last_index_bounds(s: Seq<char>, c: char)
    ensures
        -1 <= last_index_of(s, c) < s.len(),
        last_index_of(s, c) >= 0 ==> s[last_index_of(s, c)] == c,
    decreases s.len(),
{
    if s.len() > 0 && s.last() != c {
        lemma_last_index_bounds(s.drop_last(), c);
    }
}

/// The directory part of a file path: what comes before the last `/`
/// (`/` itself for a file at the root, the empty path for a bare file name,
/// `.` where the path has no parent).
pub open spec fn parent_dir(s: Seq<char>) -> Seq<char> {
    let j = last_index_of(s, '/');
    if j < 0 {
        if s.len() == 0 {
            "."@
        } else {
            Seq::empty()
        }
    } else if j == 0 {
        if s.len() == 1 {
            "."@
        } else {
            "/"@
        }
    } else {
        s.subrange(0, j)
    }
}

/// `name` inside directory `dir`.
pub open spec fn join_path(dir: Seq<char>, name: Seq<char>) -> Seq<char> {
    if dir.len() == 0 {
        name
    } else if dir.last() == '/' {
        dir + name
    } else {
        dir + "/"@ + name
    }
}

/// The source file of module `module` next to `file`: `module.sbz` in the
/// directory of `file`.
pub open spec fn sibling_source(file: Seq<char>, module: Seq<char>) -> Seq<char> {
    join_path(parent_dir(file), module + ".sbz"@)
}

/// The path with its extension replaced by `py` (or `.py` added where the
/// file name has none; a name whose only dot leads it has none).
pub open spec fn py_path(s: Seq<char>) -> Seq<char> {
    let start = last_index_of(s, '/') + 1;
    let name = s.subrange(start, s.len() as int);
    let d = last_index_of(name, '.');
    if d > 0 {
        s.subrange(0, start + d) + ".py"@
    } else {
        s + ".py"@
    }
}

/// `c` does not occur in `s`.
pub open spec fn lacks(s: Seq<char>, c: char) -> bool {
    forall|i: int| 0 <= i < s.len() ==> s[i] != c
}

proof fn lemma_last_index_append(a: Seq<char>, b: Seq<char>, c: char)
    requires
        lacks(b, c),
    ensures
        last_index_of(a + b, c) == last_index_of(a, c),
    decreases b.len(),
{
    if b.len() > 0 {
        assert((a + b).drop_last() =~= a + b.drop_last());
        assert((a + b).last() == b.last());
        lemma_last_index_append(a, b.drop_last(), c);
    } else {
        assert(a + b =~= a);
    }
}

proof fn lemma_last_index_after(a: Seq<char>, b: Seq<char>, c: char)
    requires
        lacks(b, c),
    ensures
        last_index_of(a.push(c) + b, c) == a.len(),
{
    lemma_last_index_append(a.push(c), b, c);
}

/// The Python file of a module's source found next to `file` is the module's
/// name with `.py`, in the same directory: where a dependency is read from,
/// its output is written beside it.
pub proof fn law_dependency_output_beside_source(file: Seq<char>, module: Seq<char>)
    requires
        module.len() > 0,
        lacks(module, '/'),
        lacks(module, '.'),
    ensures
        py_path(sibling_source(file, module)) == join_path(parent_dir(file), module + ".py"@),
{
    reveal_strlit(".sbz");
    reveal_strlit(".py");
    reveal_strlit("/");
    let d = parent_dir(file);
    let tail = module + ".sbz"@;
    let s = join_path(d, tail);
    let prefix: Seq<char> = if d.len() == 0 {
        Seq::empty()
    } else if d.last() == '/' {
        d
    } else {
        d + "/"@
    };
    assert(s =~= prefix + tail);
    assert(lacks(tail, '/')) by {
        assert forall|i: int| 0 <= i < tail.len() implies tail[i] != '/' by {
            if i < module.len() {
                assert(tail[i] == module[i]);
            }
        }
    }
    lemma_last_index_append(prefix, tail, '/');
    let start = last_index_of(s, '/') + 1;
    if prefix.len() == 0 {
        assert(last_index_of(prefix, '/') == -1);
    } else {
        assert(prefix =~= prefix.drop_last().push('/'));
        lemma_last_index_after(prefix.drop_last(), Seq::empty(), '/');
        assert(prefix.drop_last().push('/') + Seq::<char>::empty() =~= prefix);
    }
    assert(start == prefix.len());
    let name = s.subrange(start, s.len() as int);
    assert(name =~= tail);
    reveal_strlit("sbz");
    assert(".sbz"@ =~= seq!['.'] + "sbz"@);
    assert(tail =~= module.push('.') + "sbz"@);
    lemma_last_index_after(module, "sbz"@, '.');
    assert(last_index_of(name, '.') == module.len());
    assert(s.subrange(0, start + module.len()) =~= prefix + module);
    assert(join_path(d, module + ".py"@) =~= prefix + (module + ".py"@));
}

/// The index of the last `c` among `cs`.
fn find_last(cs: &Vec<char>, c: char) -> (r: Option<usize>)
    ensures
        match r {
            Some(j) => j == last_index_of(cs@, c),
            None => last_index_of(cs@, c) == -1,
        },
{
    let mut i: usize = cs.len();
    proof {
        assert(cs@.take(i as int) =~= cs@);
    }
    while i > 0
        invariant
            i <= cs.len(),
            last_index_of(cs@, c) == last_index_of(cs@.take(i as int), c),
        decreases i,
    {
        let ghost t = cs@.take(i as int);
        proof {
            assert(t.drop_last() =~= cs@.take(i - 1));
            assert(t.last() == cs@[i - 1]);
        }
        if cs[i - 1] == c {
            return Some(i - 1);
        }
        i = i - 1;
    }
    None
}

/// The characters `cs[lo..hi]`.
fn slice_chars(cs: &Vec<char>, lo: usize, hi: usize) -> (v: Vec<char>)
    requires
        lo <= hi <= cs.len(),
    ensures
        v@ == cs@.subrange(lo as int, hi as int),
{
    let mut v: Vec<char> = Vec::new();
    let mut i: usize = lo;
    while i < hi
        invariant
            lo <= i <= hi <= cs.len(),
            v@ == cs@.subrange(lo as int, i as int),
        decreases hi - i,
    {
        v.push(cs[i]);
        i = i + 1;
        assert(v@ =~= cs@.subrange(lo as int, i as int));
    }
    v
}

/// The directory part of `file`.
pub fn parent_of(file: &str) -> (r: String)
    ensures
        r@ == parent_dir(file@),
{
    let cs = chars_of(file);
    proof {
        lemma_last_index_bounds(cs@, '/');
    }
    match find_last(&cs, '/') {
        None => {
            if cs.len() == 0 {
                let r = string_from_chars(&vec!['.']);
                assert(r@ =~= "."@) by { reveal_strlit("."); }
                r
            } else {
                String::new()
            }
        },
        Some(j) => {
            if j == 0 {
                if cs.len() == 1 {
                    let r = string_from_chars(&vec!['.']);
                    assert(r@ =~= "."@) by { reveal_strlit("."); }
                    r
                } else {
                    let r = string_from_chars(&vec!['/']);
                    assert(r@ =~= "/"@) by { reveal_strlit("/"); }
                    r
                }
            } else {
                let v = slice_chars(&cs, 0, j);
                string_from_chars(&v)
            }
        },
    }
}

/// `name` inside directory `dir`.
pub fn join(dir: &str, name: &str) -> (r: String)
    ensures
        r@ == join_path(dir@, name@),
{
    let cs = chars_of(dir);
    let mut out = string_from_chars(&cs);
    if cs.len() == 0 {
        let r = string_from_chars(&chars_of(name));
        return r;
    }
    if cs[cs.len() - 1] != '/' {
        push_str(&mut out, "/");
    }
    push_str(&mut out, name);
    out
}

/// The source file of `module` next to `file`.
pub fn sibling_source_path(file: &str, module: &str) -> (r: String)
    ensures
        r@ == sibling_source(file@, module@),
{
    let dir = parent_of(file);
    let mut name = string_from_chars(&chars_of(module));
    push_str(&mut name, ".sbz");
    join(dir.as_str(), name.as_str())
}

/// The `.py` file that goes with source file `path`.
pub fn py_path_of(path: &str) -> (r: String)
    ensures
        r@ == py_path(path@),
{
    let cs = chars_of(path);
    proof {
        lemma_last_index_bounds(cs@, '/');
    }
    let start: usize = match find_last(&cs, '/') {
        Some(j) => j + 1,
        None => 0,
    };
    proof {
        lemma_last_index_bounds(cs@, '/');
    }
    let name = slice_chars(&cs, start, cs.len());
    match find_last(&name, '.') {
        Some(d) => {
            if d > 0 {
                proof {
                    lemma_last_index_bounds(name@, '.');
                }
                let v = slice_chars(&cs, 0, start + d);
                let mut r = string_from_chars(&v);
                push_str(&mut r, ".py");
                return r;
            }
        },
        None => {},
    }
    let mut r = string_from_chars(&cs);
    push_str(&mut r, ".py");
    r
}

} // verus!
