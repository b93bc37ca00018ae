use vstd::prelude::*;

verus! {

// Logical paths are slash-separated strings, as the generated-output table
// keys them. A path is treated purely textually: no component is special,
// and none of the operations below touches the file system.

/// The position of the last occurrence of `c` in `s`, if any.
pub open spec fn last_index_of(s: Seq<char>, c: char) -> Option<int>
    decreases s.len(),
{
    if s.len() == 0 {
        None
    } else if s.last() == c {
        Some(s.len() - 1)
    } else {
        last_index_of(s.drop_last(), c)
    }
}

/// The part of `p` after its last `/`; all of `p` when it has none.
pub open spec fn file_name_of(p: Seq<char>) -> Seq<char> {
    match last_index_of(p, '/') {
        Some(i) => p.subrange(i + 1, p.len() as int),
        None => p,
    }
}

/// The part of `p` before its last `/`; empty when it has none.
pub open spec fn parent_of(p: Seq<char>) -> Seq<char> {
    match last_index_of(p, '/') {
        Some(i) => p.subrange(0, i),
        None => Seq::empty(),
    }
}

/// The extension of `p`: what follows the last `.` of its file name,
/// provided that `.` is not the file name's first character.
pub open spec fn extension_of(p: Seq<char>) -> Option<Seq<char>> {
    let name = file_name_of(p);
    match last_index_of(name, '.') {
        Some(d) => if d > 0 {
            Some(name.subrange(d + 1, name.len() as int))
        } else {
            None
        },
        None => None,
    }
}

/// `p` without its extension and the `.` before it; `p` itself when it has none.
pub open spec fn strip_extension_of(p: Seq<char>) -> Seq<char> {
    match extension_of(p) {
        Some(e) => p.subrange(0, p.len() - e.len() - 1),
        None => p,
    }
}

/// `p` with `.e` appended.
pub open spec fn add_extension_of(p: Seq<char>, e: Seq<char>) -> Seq<char> {
    p + seq!['.'] + e
}

/// `a` and `b` joined with a single `/`: `b` when `a` is empty, plain
/// concatenation when `a` already ends with `/`.
pub open spec fn join_of(a: Seq<char>, b: Seq<char>) -> Seq<char> {
    if a.len() == 0 {
        b
    } else if a.last() == '/' {
        a + b
    } else {
        a + seq!['/'] + b
    }
}

/// Whether `pre` is a whole-component prefix of `p`: `p` equals `pre`, or
/// continues it right after a `/`. An empty `pre` is a prefix of every
/// path, and a single trailing `/` on `pre` is ignored.
pub open spec fn is_component_prefix(p: Seq<char>, pre: Seq<char>) -> bool {
    let q = if pre.len() > 0 && pre.last() == '/' {
        pre.drop_last()
    } else {
        pre
    };
    ||| q.len() == 0
    ||| p == q
    ||| (q.len() < p.len() && p.subrange(0, q.len() as int) == q && p[q.len() as int] == '/')
}

/// What `last_index_of` returns: the last occurrence, nothing after it.
pub proof fn lemma_last_index_of(s: Seq<char>, c: char)
    ensures
        match last_index_of(s, c) {
            Some(i) => 0 <= i < s.len() && s[i] == c && (forall|j: int|
                i < j < s.len() ==> s[j] != c),
            None => forall|j: int| 0 <= j < s.len() ==> s[j] != c,
        },
    decreases s.len(),
{
    if s.len() > 0 && s.last() != c {
        lemma_last_index_of(s.drop_last(), c);
        assert(forall|j: int| 0 <= j < s.len() - 1 ==> s[j] == s.drop_last()[j]);
    }
}

/// The position of the last occurrence of `c` in `s`, if any.
pub fn find_last(s: &str, c: char) -> (r: Option<usize>)
    ensures
        match r {
            Some(i) => last_index_of(s@, c) == Some(i as int),
            None => last_index_of(s@, c) is None,
        },
{
    let n = s.unicode_len();
    proof {
        assert(s@.take(n as int) =~= s@);
    }
    let mut i: usize = n;
    while i > 0
        invariant
            i <= n,
            n == s@.len(),
            last_index_of(s@, c) == last_index_of(s@.take(i as int), c),
        decreases i,
    {
        i -= 1;
        proof {
            assert(s@.take(i + 1).last() == s@[i as int]);
            assert(s@.take(i + 1).drop_last() =~= s@.take(i as int));
        }
        if s.get_char(i) == c {
            return Some(i);
        }
    }
    proof {
        assert(s@.take(0) =~= Seq::<char>::empty());
    }
    None
}

/// The part of `p` after its last `/`; all of `p` when it has none.
pub fn file_name(p: &str) -> (r: String)
    ensures
        r@ == file_name_of(p@),
{
    proof {
        lemma_last_index_of(p@, '/');
    }
    let n = p.unicode_len();
    match find_last(p, '/') {
        Some(i) => p.substring_char(i + 1, n).to_owned(),
        None => p.to_owned(),
    }
}

/// The part of `p` before its last `/`; empty when it has none.
pub fn parent_dir(p: &str) -> (r: String)
    ensures
        r@ == parent_of(p@),
{
    proof {
        lemma_last_index_of(p@, '/');
    }
    match find_last(p, '/') {
        Some(i) => p.substring_char(0, i).to_owned(),
        None => String::new(),
    }
}

/// The extension of `p`, as `extension_of` gives it.
pub fn path_extension(p: &str) -> (r: Option<String>)
    ensures
        match r {
            Some(e) => extension_of(p@) == Some(e@),
            None => extension_of(p@) is None,
        },
{
    let name = file_name(p);
    proof {
        lemma_last_index_of(name@, '.');
    }
    let nl = name.as_str().unicode_len();
    match find_last(name.as_str(), '.') {
        Some(d) => if d > 0 {
            Some(name.as_str().substring_char(d + 1, nl).to_owned())
        } else {
            None
        },
        None => None,
    }
}

/// `p` without its extension; `p` itself when it has none.
pub fn strip_extension(p: &str) -> (r: String)
    ensures
        r@ == strip_extension_of(p@),
{
    let name = file_name(p);
    proof {
        lemma_last_index_of(name@, '.');
        lemma_last_index_of(p@, '/');
    }
    let n = p.unicode_len();
    let nl = name.as_str().unicode_len();
    match find_last(name.as_str(), '.') {
        Some(d) => if d > 0 {
            p.substring_char(0, n - nl + d).to_owned()
        } else {
            p.to_owned()
        },
        None => p.to_owned(),
    }
}

/// `p` with `.e` appended.
pub fn add_extension(p: &str, e: &str) -> (r: String)
    ensures
        r@ == add_extension_of(p@, e@),
{
    let mut r = p.to_owned();
    r.append(".");
    proof {
        reveal_strlit(".");
    }
    r.append(e);
    r
}

/// `a` and `b` joined with a single `/`.
pub fn join_path(a: &str, b: &str) -> (r: String)
    ensures
        r@ == join_of(a@, b@),
{
    let n = a.unicode_len();
    if n == 0 {
        return b.to_owned();
    }
    let mut r = a.to_owned();
    if a.get_char(n - 1) != '/' {
        r.append("/");
        proof {
            reveal_strlit("/");
        }
    }
    r.append(b);
    r
}

/// Whether `pre` is a whole-component prefix of `p`; a single trailing
/// `/` on `pre` is ignored.
pub fn path_starts_with(p: &str, pre: &str) -> (r: bool)
    ensures
        r == is_component_prefix(p@, pre@),
{
    let kp = pre.unicode_len();
    let trimmed: String = if kp > 0 && pre.get_char(kp - 1) == '/' {
        pre.substring_char(0, kp - 1).to_owned()
    } else {
        pre.to_owned()
    };
    proof {
        if pre@.len() > 0 && pre@.last() == '/' {
            assert(trimmed@ =~= pre@.drop_last());
        }
    }
    let q = trimmed.as_str();
    let np = p.unicode_len();
    let k = q.unicode_len();
    if k == 0 {
        return true;
    }
    if k > np {
        proof {
            assert(p@.len() != q@.len());
        }
        return false;
    }
    let head = p.substring_char(0, k);
    let same = head.to_owned() == q.to_owned();
    proof {
        assert(head@ == p@.subrange(0, k as int));
    }
    if k == np {
        proof {
            assert(p@.subrange(0, k as int) =~= p@);
        }
        same
    } else {
        proof {
            if p@ == q@ {
                assert(p@.len() == q@.len());
            }
        }
        same && p.get_char(k) == '/'
    }
}

} // verus!
