//! Pure text helpers: character-level string comparison, the last path
//! component of a file path, the file-type extension, and the line count
//! that a full-document edit must span.

use vstd::prelude::*;
use vstd::string::StrSliceExecFns;
use vstd::string::StringExecFns;

verus! {

/// True when the two string slices hold the same characters.
pub fn str_eq(a: &str, b: &str) -> (r: bool)
    ensures
        r == (a@ == b@),
{
    let alen = a.unicode_len();
    let blen = b.unicode_len();
    if alen != blen {
        return false;
    }
    let mut i: usize = 0;
    while i < alen
        invariant
            alen == a@.len(),
            blen == b@.len(),
            alen == blen,
            0 <= i <= alen,
            forall|k: int| 0 <= k < i ==> a@[k] == b@[k],
        decreases alen - i,
    {
        if a.get_char(i) != b.get_char(i) {
            return false;
        }
        i += 1;
    }
    proof {
        assert(a@ =~= b@);
    }
    true
}

/// The characters after the last `/` of `path`: the whole path when it holds
/// no separator, and the empty sequence when it ends in one.
pub open spec fn file_name_spec(path: Seq<char>) -> Seq<char>
    decreases path.len(),
{
    if path.len() == 0 {
        path
    } else if path.last() == '/' {
        Seq::<char>::empty()
    } else {
        file_name_spec(path.drop_last()).push(path.last())
    }
}

/// The file-type extension of a file name: the characters after its last `.`,
/// unless the name holds no `.` or only a leading one (a dotfile).
pub open spec fn name_extension_spec(name: Seq<char>) -> Option<Seq<char>>
    decreases name.len(),
{
    if name.len() == 0 {
        None
    } else if name.last() == '.' {
        if name.len() >= 2 {
            Some(Seq::<char>::empty())
        } else {
            None
        }
    } else {
        match name_extension_spec(name.drop_last()) {
            Some(e) => Some(e.push(name.last())),
            None => None,
        }
    }
}

/// The extension of the last path component of `path`.
pub open spec fn extension_spec(path: Seq<char>) -> Option<Seq<char>> {
    name_extension_spec(file_name_spec(path))
}

/// The largest index where `c` occurs in `s`, when it occurs at all.
fn rfind_char(s: &str, c: char) -> (r: Option<usize>)
    ensures
        match r {
            Some(j) => {
                &&& j < s@.len()
                &&& s@[j as int] == c
                &&& forall|k: int| j < k < s@.len() ==> s@[k] != c
            },
            None => forall|k: int| 0 <= k < s@.len() ==> s@[k] != c,
        },
{
    let n = s.unicode_len();
    let mut i: usize = n;
    while i > 0
        invariant
            n == s@.len(),
            0 <= i <= n,
            forall|k: int| i <= k < n ==> s@[k] != c,
        decreases i,
    {
        i -= 1;
        if s.get_char(i) == c {
            return Some(i);
        }
    }
    None
}

proof fn lemma_file_name_no_sep(s: Seq<char>)
    requires
        forall|k: int| 0 <= k < s.len() ==> s[k] != '/',
    ensures
        file_name_spec(s) == s,
    decreases s.len(),
{
    if s.len() > 0 {
        lemma_file_name_no_sep(s.drop_last());
        assert(file_name_spec(s) =~= s);
    } else {
        assert(file_name_spec(s) =~= s);
    }
}

proof fn lemma_file_name_suffix(s: Seq<char>, j: int)
    requires
        0 <= j < s.len(),
        s[j] == '/',
        forall|k: int| j < k < s.len() ==> s[k] != '/',
    ensures
        file_name_spec(s) == s.subrange(j + 1, s.len() as int),
    decreases s.len(),
{
    if j == s.len() - 1 {
        assert(file_name_spec(s) =~= s.subrange(j + 1, s.len() as int));
    } else {
        let t = s.drop_last();
        assert(forall|k: int| j < k < t.len() ==> t[k] != '/');
        lemma_file_name_suffix(t, j);
        assert(file_name_spec(s) =~= s.subrange(j + 1, s.len() as int));
    }
}

/// The last path component of `path`, as an owned string.
pub fn file_name_of(path: &str) -> (r: String)
    ensures
        r@ == file_name_spec(path@),
{
    let n = path.unicode_len();
    match rfind_char(path, '/') {
        Some(j) => {
            proof {
                lemma_file_name_suffix(path@, j as int);
            }
            String::from_str(path.substring_char(j + 1, n))
        },
        None => {
            proof {
                lemma_file_name_no_sep(path@);
            }
            proof {
                assert(path@.subrange(0, n as int) =~= path@);
            }
            String::from_str(path.substring_char(0, n))
        },
    }
}

proof fn lemma_name_extension_no_dot(s: Seq<char>)
    requires
        forall|k: int| 0 <= k < s.len() ==> s[k] != '.',
    ensures
        name_extension_spec(s) is None,
    decreases s.len(),
{
    if s.len() > 0 {
        lemma_name_extension_no_dot(s.drop_last());
    }
}

proof fn lemma_name_extension_leading_dot(s: Seq<char>)
    requires
        s.len() >= 1,
        s[0] == '.',
        forall|k: int| 0 < k < s.len() ==> s[k] != '.',
    ensures
        name_extension_spec(s) is None,
    decreases s.len(),
{
    if s.len() > 1 {
        lemma_name_extension_leading_dot(s.drop_last());
    }
}

proof fn lemma_name_extension_suffix(s: Seq<char>, j: int)
    requires
        0 < j < s.len(),
        s[j] == '.',
        forall|k: int| j < k < s.len() ==> s[k] != '.',
    ensures
        name_extension_spec(s) == Some(s.subrange(j + 1, s.len() as int)),
    decreases s.len(),
{
    if j == s.len() - 1 {
        assert(name_extension_spec(s) == Some(Seq::<char>::empty()));
        assert(Seq::<char>::empty() =~= s.subrange(j + 1, s.len() as int));
    } else {
        let t = s.drop_last();
        lemma_name_extension_suffix(t, j);
        assert(t.subrange(j + 1, t.len() as int).push(s.last()) =~= s.subrange(
            j + 1,
            s.len() as int,
        ));
    }
}

/// The file-type extension of the last path component of `path`.
pub fn extension_of(path: &str) -> (r: Option<String>)
    ensures
        match r {
            Some(e) => extension_spec(path@) == Some(e@),
            None => extension_spec(path@) is None,
        },
{
    let name = file_name_of(path);
    let name_str = name.as_str();
    let n = name_str.unicode_len();
    match rfind_char(name_str, '.') {
        Some(j) => {
            if j == 0 {
                proof {
                    lemma_name_extension_leading_dot(name@);
                }
                None
            } else {
                proof {
                    lemma_name_extension_suffix(name@, j as int);
                }
                Some(String::from_str(name_str.substring_char(j + 1, n)))
            }
        },
        None => {
            proof {
                lemma_name_extension_no_dot(name@);
            }
            None
        },
    }
}

/// The number of newline characters in `s`.
pub open spec fn newline_count_spec(s: Seq<char>) -> nat
    decreases s.len(),
{
    if s.len() == 0 {
        0
    } else {
        newline_count_spec(s.drop_last()) + if s.last() == '\n' {
            1nat
        } else {
            0nat
        }
    }
}

/// The number of lines of `s`, counted the way a full-document edit needs
/// it: text that does not end in a newline still ends a final line.
pub open spec fn line_count_spec(s: Seq<char>) -> nat {
    if s.len() == 0 {
        0
    } else if s.last() == '\n' {
        newline_count_spec(s)
    } else {
        newline_count_spec(s) + 1
    }
}

proof fn lemma_newline_count_le_len(s: Seq<char>)
    ensures
        newline_count_spec(s) <= s.len(),
    decreases s.len(),
{
    if s.len() > 0 {
        lemma_newline_count_le_len(s.drop_last());
    }
}

/// Counts the lines of `s`.
pub fn count_lines(s: &str) -> (r: usize)
    ensures
        r == line_count_spec(s@),
{
    let n = s.unicode_len();
    if n == 0 {
        return 0;
    }
    let mut count: usize = 0;
    let mut i: usize = 0;
    while i < n
        invariant
            n == s@.len(),
            0 <= i <= n,
            count <= i,
            count == newline_count_spec(s@.subrange(0, i as int)),
        decreases n - i,
    {
        let c = s.get_char(i);
        proof {
            assert(s@.subrange(0, i + 1).drop_last() =~= s@.subrange(0, i as int));
            assert(s@.subrange(0, i + 1).last() == s@[i as int]);
        }
        if c == '\n' {
            count += 1;
        }
        i += 1;
    }
    proof {
        assert(s@.subrange(0, n as int) =~= s@);
    }
    if s.get_char(n - 1) == '\n' {
        count
    } else {
        proof {
            lemma_newline_count_le_len(s@.drop_last());
            assert(newline_count_spec(s@) == newline_count_spec(s@.drop_last()));
        }
        count + 1
    }
}

} // verus!
