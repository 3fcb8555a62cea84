//! Project-path handling: splitting a `//<domain>/<stream>/<project>` path
//! into its stream and project-name halves and folding both to lowercase, so
//! that a project's identity is case-insensitive.

use vstd::prelude::*;

verus! {

/// The lowercase folding of a character sequence, as `str::to_lowercase`
/// computes it.
pub uninterp spec fn lower_of(s: Seq<char>) -> Seq<char>;

/// Relies on str::to_lowercase: the result depends on the characters alone.
#[verifier::external_body]
fn to_lowercase_str(s: &str) -> (r: String)
    ensures
        r@ == lower_of(s@),
{
    s.to_lowercase()
}

/// `s` with one trailing `'/'` removed, if there is one.
pub open spec fn strip_trailing_slash_spec(s: Seq<char>) -> Seq<char> {
    if s.len() > 0 && s[s.len() - 1] == '/' {
        s.drop_last()
    } else {
        s
    }
}

/// How a raw stream string is normalized: one trailing slash stripped, then
/// the whole folded to lowercase.
pub open spec fn normalize_stream_spec(s: Seq<char>) -> Seq<char> {
    lower_of(strip_trailing_slash_spec(s))
}

/// The least index `>= start` at which `c` occurs in `s`, if any.
pub open spec fn find_from_spec(s: Seq<char>, c: char, start: int) -> Option<int>
    decreases s.len() - start,
{
    if start >= s.len() {
        None
    } else if s[start] == c {
        Some(start)
    } else {
        find_from_spec(s, c, start + 1)
    }
}

/// What a found index means: it is in range, holds `c`, and nothing before it
/// does; a miss means no occurrence at or after `start`.
pub proof fn lemma_find_from_spec(s: Seq<char>, c: char, start: int)
    requires
        0 <= start,
    ensures
        match find_from_spec(s, c, start) {
            Some(i) => start <= i < s.len() && s[i] == c && forall|k: int|
                start <= k < i ==> s[k] != c,
            None => forall|k: int| start <= k < s.len() ==> s[k] != c,
        },
    decreases s.len() - start,
{
    if start < s.len() && s[start] != c {
        lemma_find_from_spec(s, c, start + 1);
    }
}

/// How a project path splits: it must start with `//`, have a further `/`
/// ending the stream half, and a nonempty remainder naming the project; both
/// halves come back normalized.
pub open spec fn split_path_spec(path: Seq<char>) -> Option<(Seq<char>, Seq<char>)> {
    if !(path.len() >= 2 && path[0] == '/' && path[1] == '/') {
        None
    } else {
        match find_from_spec(path, '/', 2) {
            None => None,
            Some(si) => match find_from_spec(path, '/', si + 1) {
                None => None,
                Some(pi) => if path.len() > pi + 1 {
                    Some((normalize_stream_spec(path.take(pi)), lower_of(path.skip(pi + 1))))
                } else {
                    None
                },
            },
        }
    }
}

/// The project path shown in aggregate records: `<stream>/<name>`.
pub open spec fn path_of(stream: Seq<char>, name: Seq<char>) -> Seq<char> {
    stream + seq!['/'] + name
}

/// Character-wise string equality.
pub fn str_eq(a: &str, b: &str) -> (r: bool)
    ensures
        r == (a@ == b@),
{
    let la: usize = a.unicode_len();
    let lb: usize = b.unicode_len();
    if la != lb {
        return false;
    }
    let mut i: usize = 0;
    while i < la
        invariant
            la == a@.len(),
            la == b@.len(),
            i <= la,
            forall|k: int| 0 <= k < i ==> a@[k] == b@[k],
        decreases la - i,
    {
        if a.get_char(i) != b.get_char(i) {
            return false;
        }
        i = i + 1;
    }
    proof {
        assert(a@ =~= b@);
    }
    true
}

/// The least index `>= starting_index` at which `needle` occurs in
/// `haystack`, counting characters.
pub fn find_starting_at(haystack: &str, needle: char, starting_index: usize) -> (r: Option<usize>)
    ensures
        match r {
            Some(i) => find_from_spec(haystack@, needle, starting_index as int) == Some(i as int),
            None => find_from_spec(haystack@, needle, starting_index as int) is None,
        },
{
    let len: usize = haystack.unicode_len();
    let mut i: usize = starting_index;
    while i < len
        invariant
            starting_index <= i,
            len == haystack@.len(),
            find_from_spec(haystack@, needle, starting_index as int) == find_from_spec(
                haystack@,
                needle,
                i as int,
            ),
        decreases len - i,
    {
        let c = haystack.get_char(i);
        if c == needle {
            return Some(i);
        }
        i = i + 1;
    }
    None
}

/// Normalize a raw stream string: strip one trailing `/`, fold to lowercase.
pub fn normalize_stream(stream: &str) -> (r: String)
    ensures
        r@ == normalize_stream_spec(stream@),
{
    let len: usize = stream.unicode_len();
    if len > 0 && stream.get_char(len - 1) == '/' {
        let stripped = stream.substring_char(0, len - 1);
        proof {
            assert(stripped@ =~= strip_trailing_slash_spec(stream@));
        }
        to_lowercase_str(stripped)
    } else {
        proof {
            assert(stream@ =~= strip_trailing_slash_spec(stream@));
        }
        to_lowercase_str(stream)
    }
}

/// Normalize a raw project name: fold to lowercase.
pub fn normalize_project_name(project_name: &str) -> (r: String)
    ensures
        r@ == lower_of(project_name@),
{
    to_lowercase_str(project_name)
}

/// Split a `//<domain>/<stream>/<project>` path into its normalized stream
/// and project-name halves, or nothing if the path is not of that form.
pub fn split_project_path(project_path: &str) -> (r: Option<(String, String)>)
    ensures
        match r {
            Some(parts) => split_path_spec(project_path@) == Some((parts.0@, parts.1@)),
            None => split_path_spec(project_path@) is None,
        },
{
    let len: usize = project_path.unicode_len();
    if !(len >= 2 && project_path.get_char(0) == '/' && project_path.get_char(1) == '/') {
        return None;
    }
    let si: usize = match find_starting_at(project_path, '/', 2) {
        Some(i) => i,
        None => {
            return None;
        },
    };
    proof {
        lemma_find_from_spec(project_path@, '/', 2);
    }
    let pi: usize = match find_starting_at(project_path, '/', si + 1) {
        Some(i) => i,
        None => {
            return None;
        },
    };
    proof {
        lemma_find_from_spec(project_path@, '/', si + 1);
    }
    if len > pi + 1 {
        let stream_part = project_path.substring_char(0, pi);
        let proj_part = project_path.substring_char(pi + 1, len);
        proof {
            assert(stream_part@ =~= project_path@.take(pi as int));
            assert(proj_part@ =~= project_path@.skip(pi + 1));
        }
        let s = normalize_stream(stream_part);
        let p = normalize_project_name(proj_part);
        Some((s, p))
    } else {
        None
    }
}

} // verus!
