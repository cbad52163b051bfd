//! File-name algebra: the extension and stem of a file name, the
//! HTML-extension test applied during input resolution, and the name of
//! a converted Markdown file.
use vstd::prelude::*;
use crate::paths::PathRep;

verus! {

/// The index of the last `.` in a name, or -1 when it has none.
pub open spec fn last_dot_index(name: Seq<char>) -> int
    decreases name.len(),
{
    if name.len() == 0 {
        -1
    } else if name.last() == '.' {
        name.len() - 1
    } else {
        last_dot_index(name.drop_last())
    }
}

/// The extension of a file name: what follows the last `.`, absent when
/// there is no `.` or the only split point is a leading `.`.
pub open spec fn spec_extension(name: Seq<char>) -> Option<Seq<char>> {
    let k = last_dot_index(name);
    if k <= 0 {
        None
    } else {
        Some(name.subrange(k + 1, name.len() as int))
    }
}

/// The stem of a file name: what precedes the extension, or the whole
/// name when there is none.
pub open spec fn spec_stem(name: Seq<char>) -> Seq<char> {
    let k = last_dot_index(name);
    if k <= 0 {
        name
    } else {
        name.subrange(0, k)
    }
}

proof fn lemma_last_dot_at(name: Seq<char>, k: int)
    requires
        0 <= k < name.len(),
        name[k] == '.',
        forall|m: int| k < m < name.len() ==> name[m] != '.',
    ensures
        last_dot_index(name) == k,
    decreases name.len(),
{
    if k == name.len() - 1 {
    } else {
        assert(name.last() != '.');
        assert(name.drop_last()[k] == '.');
        lemma_last_dot_at(name.drop_last(), k);
    }
}

proof fn lemma_no_dot(name: Seq<char>)
    requires
        forall|m: int| 0 <= m < name.len() ==> name[m] != '.',
    ensures
        last_dot_index(name) == -1,
    decreases name.len(),
{
    if name.len() > 0 {
        lemma_no_dot(name.drop_last());
    }
}

/// Finds the position of the last `.` of a name, if any.
fn last_dot_of(name: &str) -> (r: Option<usize>)
    ensures
        r matches Some(k) ==> k == last_dot_index(name@) && k < name@.len(),
        r is None ==> last_dot_index(name@) == -1,
{
    let n = name.unicode_len();
    let mut i = n;
    while i > 0
        invariant
            i <= n,
            n == name@.len(),
            forall|m: int| i <= m < n ==> name@[m] != '.',
        decreases i,
    {
        if name.get_char(i - 1) == '.' {
            proof {
                lemma_last_dot_at(name@, i - 1);
            }
            return Some(i - 1);
        }
        i -= 1;
    }
    proof {
        lemma_no_dot(name@);
    }
    None
}

/// Whether a character equals a lower-case letter, up to ASCII case.
pub open spec fn char_eq_ci(a: char, lo: char) -> bool {
    a == lo || (a as u32) + 32 == (lo as u32)
}

fn char_ci(a: char, lo: char) -> (r: bool)
    ensures
        r == char_eq_ci(a, lo),
{
    a == lo || (a as u32) + 32 == (lo as u32)
}

/// Whether an extension reads `html` or `htm`, ignoring ASCII case.
pub open spec fn spec_is_html_ext(e: Seq<char>) -> bool {
    (e.len() == 4 && char_eq_ci(e[0], 'h') && char_eq_ci(e[1], 't') && char_eq_ci(e[2], 'm')
        && char_eq_ci(e[3], 'l')) || (e.len() == 3 && char_eq_ci(e[0], 'h') && char_eq_ci(
        e[1],
        't',
    ) && char_eq_ci(e[2], 'm'))
}

/// Whether a path names a file that input resolution should keep: its
/// last part carries an `html` or `htm` extension, ignoring ASCII case.
pub open spec fn spec_possible_html_file(p: PathRep) -> bool {
    p.parts.len() > 0 && match spec_extension(p.parts.deep_view().last()) {
        Some(e) => spec_is_html_ext(e),
        None => false,
    }
}

/// Decides whether a path should enter the resolved file set: only
/// files whose extension is `html` or `htm`, case-insensitively, do.
pub fn possible_html_file(path: &PathRep) -> (r: bool)
    ensures
        r == spec_possible_html_file(*path),
{
    if path.parts.len() == 0 {
        return false;
    }
    let name: &String = &path.parts[path.parts.len() - 1];
    let s: &str = name.as_str();
    proof {
        assert(s@ == path.parts.deep_view().last());
    }
    match last_dot_of(s) {
        None => false,
        Some(k) => {
            if k == 0 {
                false
            } else {
                let n = s.unicode_len();
                let ghost e = spec_extension(s@).unwrap();
                proof {
                    assert(e.len() == n - k - 1);
                    assert(forall|i: int| 0 <= i < e.len() ==> e[i] == s@[k + 1 + i]);
                }
                if n - k - 1 == 4 {
                    char_ci(s.get_char(k + 1), 'h') && char_ci(s.get_char(k + 2), 't') && char_ci(
                        s.get_char(k + 3),
                        'm',
                    ) && char_ci(s.get_char(k + 4), 'l')
                } else if n - k - 1 == 3 {
                    char_ci(s.get_char(k + 1), 'h') && char_ci(s.get_char(k + 2), 't') && char_ci(
                        s.get_char(k + 3),
                        'm',
                    )
                } else {
                    false
                }
            }
        },
    }
}

/// Character-for-character string equality.
pub fn str_eq(a: &str, b: &str) -> (r: bool)
    ensures
        r == (a@ == b@),
{
    let n = a.unicode_len();
    let m = b.unicode_len();
    if n != m {
        return false;
    }
    let mut i: usize = 0;
    let mut mismatch = false;
    while i < n && !mismatch
        invariant
            i <= n,
            n == a@.len(),
            n == b@.len(),
            !mismatch ==> forall|j: int| 0 <= j < i ==> a@[j] == b@[j],
            mismatch ==> a@ != b@,
        decreases n - i + (if mismatch {
            0int
        } else {
            1int
        }),
    {
        if a.get_char(i) == b.get_char(i) {
            i += 1;
        } else {
            mismatch = true;
        }
    }
    if mismatch {
        false
    } else {
        proof {
            assert(a@ =~= b@);
        }
        true
    }
}

/// Whether a file name carries an extension at all.
pub fn has_extension(name: &str) -> (r: bool)
    ensures
        r == (spec_extension(name@) is Some),
{
    match last_dot_of(name) {
        None => false,
        Some(k) => k > 0,
    }
}

/// The file name of the converted output: the input name's stem with a
/// `.md` extension.
pub fn md_file_name(name: &str) -> (r: String)
    ensures
        r@ == spec_stem(name@) + ".md"@,
{
    let n = name.unicode_len();
    let stem: &str = match last_dot_of(name) {
        Some(k) => {
            if k == 0 {
                name.substring_char(0, n)
            } else {
                name.substring_char(0, k)
            }
        },
        None => name.substring_char(0, n),
    };
    proof {
        assert(stem@ =~= spec_stem(name@));
    }
    let owned: String = stem.to_owned();
    owned.concat(".md")
}

} // verus!
