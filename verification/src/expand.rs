use crate::paths::{join_of, join_path, parent_dir, parent_of};
use crate::strmap::StrMap;
use vstd::prelude::*;

verus! {

// The interpolation engine. A text is scanned for `{token}` forms; a token
// starting with `@` names a file to include, any other token is looked up
// in the context and replaced by its value. After each replacement the
// whole text is rescanned from the start, so a replaced value is itself
// spliced verbatim: nested expansion happens only through the `@` form.
//
// The engine works over a file snapshot (`StrMap` from path to content),
// so its whole behaviour is a function of plain values. Two guards harden
// it against inputs on which a naive expander would not terminate: an
// inclusion-depth bound (a cyclic `@` chain) and a substitution budget
// (a value that reintroduces the token it came from).

/// How deep `@` inclusions may nest before the engine reports a cycle.
pub const EXPAND_DEPTH: u64 = 64;

/// How many substitutions one text may take before the engine gives up.
pub const EXPAND_STEPS: u64 = 100000;

/// Why an expansion failed.
#[derive(Debug, PartialEq, Eq)]
pub enum ExpandError {
    /// The file at the held path is not in the snapshot.
    IoError(String),
    /// A `{` with no `}` after it.
    UnterminatedToken,
    /// The held key is not bound in the context.
    UnresolvedKey(String),
    /// Expanding the included file at the held path failed as the held error says.
    NestedExpansionFailed(String, Box<ExpandError>),
    /// The inclusion-depth bound was hit: an `@` chain that does not bottom out.
    CyclicInclusion,
    /// The substitution budget was spent: an expansion that does not shrink.
    SubstitutionLimit,
}

/// The mathematical shape of an `ExpandError`.
pub enum ErrView {
    Io(Seq<char>),
    Unterminated,
    Unresolved(Seq<char>),
    Nested(Seq<char>, Box<ErrView>),
    Cyclic,
    Limit,
}

pub open spec fn err_view(e: ExpandError) -> ErrView
    decreases e,
{
    match e {
        ExpandError::IoError(p) => ErrView::Io(p@),
        ExpandError::UnterminatedToken => ErrView::Unterminated,
        ExpandError::UnresolvedKey(k) => ErrView::Unresolved(k@),
        ExpandError::NestedExpansionFailed(p, inner) => ErrView::Nested(
            p@,
            Box::new(err_view(*inner)),
        ),
        ExpandError::CyclicInclusion => ErrView::Cyclic,
        ExpandError::SubstitutionLimit => ErrView::Limit,
    }
}

/// What one expansion comes to.
pub enum ExpandRes {
    Done(Seq<char>),
    Fail(ErrView),
}

/// The position of the first occurrence of `c` in `s` at or after `from`.
pub open spec fn find_first(s: Seq<char>, c: char, from: int) -> Option<int>
    decreases s.len() - from,
{
    if from < 0 || from >= s.len() {
        None
    } else if s[from] == c {
        Some(from)
    } else {
        find_first(s, c, from + 1)
    }
}

/// What `find_first` returns: the first occurrence at or after `from`.
pub proof fn lemma_find_first(s: Seq<char>, c: char, from: int)
    requires
        0 <= from,
    ensures
        match find_first(s, c, from) {
            Some(k) => from <= k < s.len() && s[k] == c && (forall|m: int|
                from <= m < k ==> s[m] != c),
            None => forall|m: int| from <= m < s.len() ==> s[m] != c,
        },
    decreases s.len() - from,
{
    if from < s.len() && s[from] != c {
        lemma_find_first(s, c, from + 1);
    }
}

pub open spec fn lookup(m: Map<Seq<char>, Seq<char>>, k: Seq<char>) -> Option<Seq<char>> {
    if m.contains_key(k) {
        Some(m[k])
    } else {
        None
    }
}

/// One whole expansion of `text`, resolving `@` inclusions against `files`
/// relative to `dir`, with `depth` inclusions and `steps` substitutions left.
pub open spec fn expand_text_spec(
    files: Map<Seq<char>, Seq<char>>,
    dir: Seq<char>,
    text: Seq<char>,
    values: Map<Seq<char>, Seq<char>>,
    depth: nat,
    steps: nat,
) -> ExpandRes
    decreases depth, steps, 0int,
{
    match find_first(text, '{', 0) {
        None => ExpandRes::Done(text),
        Some(i) => match find_first(text, '}', i) {
            None => ExpandRes::Fail(ErrView::Unterminated),
            Some(j) => {
                let key = text.subrange(i + 1, j);
                let start = text.subrange(0, i);
                let end = text.subrange(j + 1, text.len() as int);
                if key.len() > 0 && key[0] == '@' {
                    if depth == 0 {
                        ExpandRes::Fail(ErrView::Cyclic)
                    } else {
                        let nested = join_of(dir, key.subrange(1, key.len() as int));
                        match expand_file_spec(files, nested, values, (depth - 1) as nat) {
                            ExpandRes::Done(r) => if steps == 0 {
                                ExpandRes::Fail(ErrView::Limit)
                            } else {
                                expand_text_spec(
                                    files,
                                    dir,
                                    start + r + end,
                                    values,
                                    depth,
                                    (steps - 1) as nat,
                                )
                            },
                            ExpandRes::Fail(e) => ExpandRes::Fail(
                                ErrView::Nested(nested, Box::new(e)),
                            ),
                        }
                    }
                } else {
                    match lookup(values, key) {
                        Some(v) => if steps == 0 {
                            ExpandRes::Fail(ErrView::Limit)
                        } else {
                            expand_text_spec(
                                files,
                                dir,
                                start + v + end,
                                values,
                                depth,
                                (steps - 1) as nat,
                            )
                        },
                        None => ExpandRes::Fail(ErrView::Unresolved(key)),
                    }
                }
            },
        },
    }
}

/// The expansion of the file at `path`: its text, expanded with inclusions
/// resolved relative to the file's own directory.
pub open spec fn expand_file_spec(
    files: Map<Seq<char>, Seq<char>>,
    path: Seq<char>,
    values: Map<Seq<char>, Seq<char>>,
    depth: nat,
) -> ExpandRes
    decreases depth, EXPAND_STEPS as nat, 1int,
{
    match lookup(files, path) {
        None => ExpandRes::Fail(ErrView::Io(path)),
        Some(text) => expand_text_spec(
            files,
            parent_of(path),
            text,
            values,
            depth,
            EXPAND_STEPS as nat,
        ),
    }
}

/// Expanding a text holding no `{` at all leaves it unchanged.
pub proof fn lemma_expand_no_tokens(
    files: Map<Seq<char>, Seq<char>>,
    dir: Seq<char>,
    text: Seq<char>,
    values: Map<Seq<char>, Seq<char>>,
    depth: nat,
    steps: nat,
)
    requires
        forall|i: int| 0 <= i < text.len() ==> text[i] != '{',
    ensures
        expand_text_spec(files, dir, text, values, depth, steps) == ExpandRes::Done(text),
{
    lemma_find_first(text, '{', 0);
    if find_first(text, '{', 0) is Some {
        let k = find_first(text, '{', 0)->Some_0;
        assert(text[k] == '{');
    }
}

/// Expanding a file whose text holds no `{` at all yields the text
/// unchanged, whatever the snapshot, the context and the depth left.
pub proof fn lemma_expand_file_no_tokens(
    files: Map<Seq<char>, Seq<char>>,
    path: Seq<char>,
    values: Map<Seq<char>, Seq<char>>,
    depth: nat,
)
    requires
        files.contains_key(path),
        forall|i: int| 0 <= i < files[path].len() ==> files[path][i] != '{',
    ensures
        expand_file_spec(files, path, values, depth) == ExpandRes::Done(files[path]),
{
    lemma_expand_no_tokens(
        files,
        parent_of(path),
        files[path],
        values,
        depth,
        EXPAND_STEPS as nat,
    );
}

/// The position of the first occurrence of `c` in `s` at or after `from`.
pub fn find_first_char(s: &str, c: char, from: usize) -> (r: Option<usize>)
    ensures
        match r {
            Some(k) => find_first(s@, c, from as int) == Some(k as int),
            None => find_first(s@, c, from as int) is None,
        },
{
    let n = s.unicode_len();
    let mut i: usize = from;
    if i > n {
        return None;
    }
    while i < n
        invariant
            from <= i <= n,
            n == s@.len(),
            find_first(s@, c, from as int) == find_first(s@, c, i as int),
        decreases n - i,
    {
        if s.get_char(i) == c {
            return Some(i);
        }
        i += 1;
    }
    None
}

/// Expands the file at `path` from the snapshot `files`, substituting the
/// context `values`, exactly as `expand_file_spec` says.
///
/// A token whose key starts with `@` includes the named file, resolved
/// relative to the directory of the file holding the token; any other key
/// is replaced by the value bound to it. A missing file, an unterminated
/// token or an unbound key fails the whole expansion.
pub fn concatenate_rhc(path: &str, files: &StrMap, values: &StrMap) -> (r: Result<
    String,
    ExpandError,
>)
    ensures
        match r {
            Ok(s) => expand_file_spec(files@, path@, values@, EXPAND_DEPTH as nat)
                == ExpandRes::Done(s@),
            Err(e) => expand_file_spec(files@, path@, values@, EXPAND_DEPTH as nat)
                == ExpandRes::Fail(err_view(e)),
        },
{
    expand_file(path, files, values, EXPAND_DEPTH)
}

fn expand_file(path: &str, files: &StrMap, values: &StrMap, depth: u64) -> (r: Result<
    String,
    ExpandError,
>)
    ensures
        match r {
            Ok(s) => expand_file_spec(files@, path@, values@, depth as nat) == ExpandRes::Done(
                s@,
            ),
            Err(e) => expand_file_spec(files@, path@, values@, depth as nat) == ExpandRes::Fail(
                err_view(e),
            ),
        },
    decreases depth, 1int,
{
    match files.get(path) {
        None => Err(ExpandError::IoError(path.to_owned())),
        Some(text) => {
            let dir = parent_dir(path);
            expand_text(dir.as_str(), text.clone(), files, values, depth)
        },
    }
}

fn expand_text(dir: &str, text: String, files: &StrMap, values: &StrMap, depth: u64) -> (r:
    Result<String, ExpandError>)
    ensures
        match r {
            Ok(s) => expand_text_spec(files@, dir@, text@, values@, depth as nat, EXPAND_STEPS as nat)
                == ExpandRes::Done(s@),
            Err(e) => expand_text_spec(
                files@,
                dir@,
                text@,
                values@,
                depth as nat,
                EXPAND_STEPS as nat,
            ) == ExpandRes::Fail(err_view(e)),
        },
    decreases depth, 0int,
{
    let ghost text0 = text@;
    let mut cur = text;
    let mut steps: u64 = EXPAND_STEPS;
    loop
        invariant
            steps <= EXPAND_STEPS,
            text0 == text@,
            expand_text_spec(files@, dir@, cur@, values@, depth as nat, steps as nat)
                == expand_text_spec(
                files@,
                dir@,
                text0,
                values@,
                depth as nat,
                EXPAND_STEPS as nat,
            ),
        decreases steps,
    {
        let n = cur.as_str().unicode_len();
        proof {
            lemma_find_first(cur@, '{', 0);
        }
        match find_first_char(cur.as_str(), '{', 0) {
            None => {
                return Ok(cur);
            },
            Some(i) => {
                proof {
                    lemma_find_first(cur@, '}', i as int);
                }
                match find_first_char(cur.as_str(), '}', i) {
                    None => {
                        return Err(ExpandError::UnterminatedToken);
                    },
                    Some(j) => {
                        let key = cur.as_str().substring_char(i + 1, j).to_owned();
                        let start = cur.as_str().substring_char(0, i).to_owned();
                        let end = cur.as_str().substring_char(j + 1, n).to_owned();
                        let klen = key.as_str().unicode_len();
                        let is_include = klen > 0 && key.as_str().get_char(0) == '@';
                        if is_include {
                            if depth == 0 {
                                return Err(ExpandError::CyclicInclusion);
                            }
                            let rel = key.as_str().substring_char(1, klen).to_owned();
                            let nested = join_path(dir, rel.as_str());
                            match expand_file(nested.as_str(), files, values, depth - 1) {
                                Ok(rres) => {
                                    if steps == 0 {
                                        return Err(ExpandError::SubstitutionLimit);
                                    }
                                    steps -= 1;
                                    let mut next = start;
                                    next.append(rres.as_str());
                                    next.append(end.as_str());
                                    cur = next;
                                },
                                Err(e) => {
                                    return Err(
                                        ExpandError::NestedExpansionFailed(nested, Box::new(e)),
                                    );
                                },
                            }
                        } else {
                            match values.get(key.as_str()) {
                                Some(v) => {
                                    if steps == 0 {
                                        return Err(ExpandError::SubstitutionLimit);
                                    }
                                    steps -= 1;
                                    let mut next = start;
                                    next.append(v.as_str());
                                    next.append(end.as_str());
                                    cur = next;
                                },
                                None => {
                                    return Err(ExpandError::UnresolvedKey(key));
                                },
                            }
                        }
                    },
                }
            },
        }
    }
}

} // verus!
