//! Shared text helpers: ASCII case folding and "suffix after the last
//! occurrence of a separator", the two operations the extension classifier
//! and the file-name logic are built on.

use vstd::prelude::*;

verus! {

/// ASCII-fold a single character to lower case; anything outside `A`..`Z`
/// is left as it is.
pub open spec fn lower_char(c: char) -> char {
    if 'A' <= c && c <= 'Z' {
        ((c as u32) + 32) as char
    } else {
        c
    }
}

/// ASCII-lowercase a whole character sequence.
pub open spec fn lower_seq(s: Seq<char>) -> Seq<char> {
    Seq::new(s.len(), |i: int| lower_char(s[i]))
}

/// Whether `c` occurs anywhere in `s`.
pub open spec fn contains_char(s: Seq<char>, c: char) -> bool {
    exists|i: int| 0 <= i < s.len() && s[i] == c
}

/// The suffix of `s` that follows the last occurrence of `sep`: the whole of
/// `s` when `sep` does not occur, and empty when `s` ends with `sep`.
pub open spec fn tail_after_last(s: Seq<char>, sep: char) -> Seq<char>
    decreases s.len(),
{
    if s.len() == 0 {
        s
    } else if s.last() == sep {
        Seq::empty()
    } else {
        tail_after_last(s.drop_last(), sep).push(s.last())
    }
}

/// `tail_after_last` is the subrange that starts right after the last
/// separator: if nothing at or beyond position `i` is a separator and `i`
/// is either the start or preceded by one, the tail is `s[i..]`.
pub proof fn lemma_tail_after_last_subrange(s: Seq<char>, sep: char, i: int)
    requires
        0 <= i <= s.len(),
        forall|j: int| i <= j < s.len() ==> s[j] != sep,
        i == 0 || s[i - 1] == sep,
    ensures
        tail_after_last(s, sep) == s.subrange(i, s.len() as int),
    decreases s.len(),
{
    if i == s.len() {
        if s.len() == 0 {
            assert(tail_after_last(s, sep) =~= s.subrange(i, s.len() as int));
        } else {
            assert(s.last() == sep);
            assert(tail_after_last(s, sep) =~= s.subrange(i, s.len() as int));
        }
    } else {
        assert(s.last() != sep);
        let shorter = s.drop_last();
        lemma_tail_after_last_subrange(shorter, sep, i);
        assert(shorter.subrange(i, shorter.len() as int) =~= s.subrange(i, s.len() - 1));
        assert(tail_after_last(s, sep) =~= s.subrange(i, s.len() as int));
    }
}

/// Whether the ASCII case folding of `c` is exactly `t`.
fn char_folds_to(c: char, t: char) -> (r: bool)
    ensures
        r == (lower_char(c) == t),
{
    let cu: u32 = c as u32;
    let tu: u32 = t as u32;
    if 65 <= cu && cu <= 90 {
        cu + 32 == tu
    } else {
        cu == tu
    }
}

/// Whether `s`, ASCII-lowercased, equals `t` exactly.
pub fn eq_fold_lower(s: &str, t: &str) -> (r: bool)
    ensures
        r == (lower_seq(s@) == t@),
{
    let n: usize = s.unicode_len();
    let m: usize = t.unicode_len();
    if n != m {
        return false;
    }
    let mut i: usize = 0;
    while i < n
        invariant
            n == s@.len(),
            n == t@.len(),
            i <= n,
            forall|j: int| 0 <= j < i ==> lower_char(s@[j]) == t@[j],
        decreases n - i,
    {
        let c = s.get_char(i);
        let tc = t.get_char(i);
        if !char_folds_to(c, tc) {
            proof {
                assert(lower_seq(s@)[i as int] != t@[i as int]);
            }
            return false;
        }
        i = i + 1;
    }
    proof {
        assert(lower_seq(s@) =~= t@);
    }
    true
}

/// The position of the last occurrence of `sep` among the first `end`
/// characters of `s`, if there is one.
pub fn rlast_index_before(s: &str, sep: char, end: usize) -> (r: Option<usize>)
    requires
        end <= s@.len(),
    ensures
        match r {
            Some(k) => {
                &&& k < end
                &&& s@[k as int] == sep
                &&& forall|j: int| k < j < end ==> s@[j] != sep
            },
            None => forall|j: int| 0 <= j < end ==> s@[j] != sep,
        },
{
    let mut i: usize = end;
    while i > 0
        invariant
            i <= end,
            end <= s@.len(),
            forall|j: int| i <= j < end ==> s@[j] != sep,
        decreases i,
    {
        let c = s.get_char(i - 1);
        if c == sep {
            return Some(i - 1);
        }
        i = i - 1;
    }
    None
}

/// The position of the last occurrence of `sep` in `s`, if there is one.
pub fn rlast_index(s: &str, sep: char) -> (r: Option<usize>)
    ensures
        match r {
            Some(k) => {
                &&& k < s@.len()
                &&& s@[k as int] == sep
                &&& forall|j: int| k < j < s@.len() ==> s@[j] != sep
            },
            None => !contains_char(s@, sep),
        },
{
    let n: usize = s.unicode_len();
    rlast_index_before(s, sep, n)
}

/// The character sequences a vector of strings holds, in order.
pub open spec fn strings_view(v: Seq<String>) -> Seq<Seq<char>> {
    v.map_values(|s: String| s@)
}

/// The file name of `path` under the usual path rules: trailing `/`
/// separators and trailing `.` components are ignored; what remains has a
/// file name exactly when its last component is neither empty nor `..`, and
/// the name is that component.
pub open spec fn file_name_opt(path: Seq<char>) -> Option<Seq<char>>
    decreases path.len(),
{
    if path.len() == 0 {
        None
    } else if path.last() == '/' {
        file_name_opt(path.drop_last())
    } else {
        let seg = tail_after_last(path, '/');
        if seg == seq!['.'] {
            file_name_opt(path.drop_last())
        } else if seg == seq!['.', '.'] {
            None
        } else {
            Some(seg)
        }
    }
}

/// The display name of `path`: its file name, or — when it has none, as for
/// the root or a path ending in `..` — the whole path rendered as text.
pub open spec fn file_name_of(path: Seq<char>) -> Seq<char> {
    match file_name_opt(path) {
        Some(seg) => seg,
        None => path,
    }
}

/// Compute `file_name_of` on a real string.
pub fn base_name(path: &str) -> (r: String)
    ensures
        r@ == file_name_of(path@),
{
    let n: usize = path.unicode_len();
    let mut e: usize = n;
    proof {
        assert(path@.take(n as int) =~= path@);
    }
    while e > 0
        invariant
            e <= n,
            n == path@.len(),
            file_name_opt(path@) == file_name_opt(path@.take(e as int)),
        decreases e,
    {
        let ghost remaining = path@.take(e as int);
        let c = path.get_char(e - 1);
        if c == '/' {
            proof {
                assert(remaining.last() == path@[e - 1]);
                assert(remaining.drop_last() =~= path@.take(e as int - 1));
            }
            e = e - 1;
        } else {
            let start: usize = match rlast_index_before(path, '/', e) {
                Some(k) => k + 1,
                None => 0,
            };
            proof {
                assert(remaining.last() == path@[e - 1]);
                assert(forall|j: int| start <= j < e ==> remaining[j] == path@[j]);
                lemma_tail_after_last_subrange(remaining, '/', start as int);
                assert(remaining.subrange(start as int, e as int) =~= path@.subrange(
                    start as int,
                    e as int,
                ));
            }
            let ghost seg = tail_after_last(remaining, '/');
            if e - start == 1 && path.get_char(start) == '.' {
                proof {
                    assert(seg =~= seq!['.']);
                    assert(remaining.drop_last() =~= path@.take(e as int - 1));
                }
                e = e - 1;
            } else if e - start == 2 && path.get_char(start) == '.' && path.get_char(start + 1)
                == '.' {
                proof {
                    assert(seg =~= seq!['.', '.']);
                    assert(seg != seq!['.']);
                }
                return String::from_str(path);
            } else {
                proof {
                    assert(seg.len() == e - start);
                    if seg == seq!['.'] {
                        assert(seg[0] == '.');
                        assert(false);
                    }
                    if seg == seq!['.', '.'] {
                        assert(seg[0] == '.' && seg[1] == '.');
                        assert(false);
                    }
                }
                let found = path.substring_char(start, e);
                return String::from_str(found);
            }
        }
    }
    proof {
        assert(path@.take(0) =~= Seq::<char>::empty());
    }
    String::from_str(path)
}

/// The path of an entry called `name` inside the folder `folder`: the two
/// joined with a `/` separator, which is not doubled when the folder already
/// ends with one and not added when the folder is empty.
pub open spec fn joined_path(folder: Seq<char>, name: Seq<char>) -> Seq<char> {
    if folder.len() == 0 {
        name
    } else if folder.last() == '/' {
        folder + name
    } else {
        folder + seq!['/'] + name
    }
}

/// Join a folder path and the name of an entry inside it.
pub fn join_path(folder: &str, name: &str) -> (r: String)
    ensures
        r@ == joined_path(folder@, name@),
{
    let n: usize = folder.unicode_len();
    if n == 0 {
        return String::from_str(name);
    }
    let mut r = String::from_str(folder);
    let last = folder.get_char(n - 1);
    if last != '/' {
        r.append("/");
        proof {
            reveal_strlit("/");
            assert(r@ =~= folder@ + seq!['/']);
        }
    }
    r.append(name);
    proof {
        assert(r@ =~= joined_path(folder@, name@));
    }
    r
}

} // verus!
