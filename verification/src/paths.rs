//! Paths as they cross the wire and sit in the store: text with `/`
//! between the components. This module tells whether one path lies under
//! another, cuts the root off a path, and puts a root in front of one.

use vstd::prelude::*;

verus! {

/// The separator of path components.
pub const SEPARATOR: char = '/';

/// Whether the text ends with the separator.
pub open spec fn ends_with_separator(s: Seq<char>) -> bool {
    s.len() > 0 && s.last() == SEPARATOR
}

/// Whether the text starts with the separator.
pub open spec fn starts_with_separator(s: Seq<char>) -> bool {
    s.len() > 0 && s.first() == SEPARATOR
}

/// What is left of `path` below `root`: nothing when `path` is `root`,
/// the components after `root` when `path` lies under it, and `None` when
/// `path` is neither. A root matches whole components only.
pub open spec fn relative_to(path: Seq<char>, root: Seq<char>) -> Option<Seq<char>> {
    if !root.is_prefix_of(path) {
        None
    } else if path.len() == root.len() {
        Some(Seq::<char>::empty())
    } else if ends_with_separator(root) {
        Some(path.skip(root.len() as int))
    } else if path[root.len() as int] == SEPARATOR {
        Some(path.skip(root.len() as int + 1))
    } else {
        None
    }
}

/// What follows `base` and one separator in `path`, if `path` starts so.
pub open spec fn below(path: Seq<char>, base: Seq<char>) -> Option<Seq<char>> {
    if base.is_prefix_of(path) && path.len() > base.len() && path[base.len() as int]
        == SEPARATOR {
        Some(path.skip(base.len() as int + 1))
    } else {
        None
    }
}

/// `rest` under `base`, with one separator between the two: `base` itself
/// when `rest` is empty; a separator is added when neither side brings
/// one, and one is dropped when both do.
pub open spec fn joined(base: Seq<char>, rest: Seq<char>) -> Seq<char> {
    if rest.len() == 0 {
        base
    } else if ends_with_separator(base) && starts_with_separator(rest) {
        base + rest.skip(1)
    } else if ends_with_separator(base) || starts_with_separator(rest) {
        base + rest
    } else {
        base + seq![SEPARATOR] + rest
    }
}

/// The place of the last separator in the text, if it has one.
pub open spec fn last_separator(path: Seq<char>) -> Option<int>
    decreases path.len(),
{
    if path.len() == 0 {
        None
    } else if path.last() == SEPARATOR {
        Some(path.len() - 1)
    } else {
        last_separator(path.drop_last())
    }
}

/// The directory above a path: what stands before its last separator, the
/// root for what lies directly under the root, and nothing for a path of
/// one component.
pub open spec fn parent_of(path: Seq<char>) -> Option<Seq<char>> {
    match last_separator(path) {
        Some(i) => if i == 0 {
            Some(seq![SEPARATOR])
        } else {
            Some(path.take(i))
        },
        None => None,
    }
}

/// What was put under a root is what is left below it: mapping a path
/// under a root and cutting the root off again are inverse.
pub proof fn law_relative_of_joined(root: Seq<char>, rest: Seq<char>)
    requires
        !starts_with_separator(rest),
    ensures
        relative_to(joined(root, rest), root) == Some(rest),
{
    let path = joined(root, rest);
    if rest.len() == 0 {
        assert(rest =~= Seq::<char>::empty());
    } else if ends_with_separator(root) {
        assert(path.skip(root.len() as int) =~= rest);
    } else {
        assert(path[root.len() as int] == SEPARATOR);
        assert(path.skip(root.len() as int + 1) =~= rest);
    }
}

/// What was put under a base that brings no separator of its own lies
/// below the base.
pub proof fn law_below_of_joined(base: Seq<char>, rest: Seq<char>)
    requires
        rest.len() > 0,
        !starts_with_separator(rest),
        !ends_with_separator(base),
    ensures
        below(joined(base, rest), base) == Some(rest),
{
    let path = joined(base, rest);
    assert(path[base.len() as int] == SEPARATOR);
    assert(path.skip(base.len() as int + 1) =~= rest);
}

/// The first `n` characters of `s` are `prefix`.
fn starts_with(s: &str, len: usize, prefix: &str, n: usize) -> (r: bool)
    requires
        len == s@.len(),
        n == prefix@.len(),
    ensures
        r == prefix@.is_prefix_of(s@),
{
    if len < n {
        return false;
    }
    let head = s.substring_char(0, n).to_owned();
    let want = prefix.to_owned();
    let same = head == want;
    proof {
        if same {
            assert(s@.subrange(0, n as int) =~= prefix@);
        }
        if prefix@.is_prefix_of(s@) {
            assert(s@.subrange(0, n as int) =~= prefix@);
        }
    }
    same
}

/// Whether the text ends with the separator.
fn has_trailing_separator(s: &str, len: usize) -> (r: bool)
    requires
        len == s@.len(),
    ensures
        r == ends_with_separator(s@),
{
    len > 0 && s.get_char(len - 1) == SEPARATOR
}

/// What is left of `path` below `root`.
pub fn strip_root(path: &str, root: &str) -> (r: Option<String>)
    ensures
        match relative_to(path@, root@) {
            Some(rest) => r matches Some(got) && got@ == rest,
            None => r is None,
        },
{
    let m: usize = path.unicode_len();
    let n: usize = root.unicode_len();
    if !starts_with(path, m, root, n) {
        return None;
    }
    if m == n {
        let nothing = String::new();
        return Some(nothing);
    }
    if has_trailing_separator(root, n) {
        let rest = path.substring_char(n, m).to_owned();
        proof {
            assert(path@.subrange(n as int, m as int) =~= path@.skip(n as int));
        }
        Some(rest)
    } else if path.get_char(n) == SEPARATOR {
        let rest = path.substring_char(n + 1, m).to_owned();
        proof {
            assert(path@.subrange(n + 1, m as int) =~= path@.skip(n + 1));
        }
        Some(rest)
    } else {
        None
    }
}

/// What follows `base` and one separator in `path`.
pub fn strip_base(path: &str, base: &str) -> (r: Option<String>)
    ensures
        match below(path@, base@) {
            Some(rest) => r matches Some(got) && got@ == rest,
            None => r is None,
        },
{
    let m: usize = path.unicode_len();
    let n: usize = base.unicode_len();
    if !starts_with(path, m, base, n) {
        return None;
    }
    if m > n && path.get_char(n) == SEPARATOR {
        let rest = path.substring_char(n + 1, m).to_owned();
        proof {
            assert(path@.subrange(n + 1, m as int) =~= path@.skip(n + 1));
        }
        Some(rest)
    } else {
        None
    }
}

/// The directory above a path.
pub fn parent(path: &str) -> (r: Option<String>)
    ensures
        match parent_of(path@) {
            Some(dir) => r matches Some(got) && got@ == dir,
            None => r is None,
        },
{
    let n: usize = path.unicode_len();
    let mut i: usize = n;
    proof {
        assert(path@.take(n as int) =~= path@);
    }
    while i > 0
        invariant
            i <= n,
            n == path@.len(),
            last_separator(path@) == last_separator(path@.take(i as int)),
        decreases i,
    {
        let ghost head = path@.take(i as int);
        proof {
            assert(head.last() == path@[i - 1]);
            assert(head.drop_last() =~= path@.take(i - 1));
        }
        if path.get_char(i - 1) == SEPARATOR {
            if i == 1 {
                proof {
                    reveal_strlit("/");
                    assert("/"@ =~= seq![SEPARATOR]);
                }
                return Some("/".to_owned());
            }
            let dir = path.substring_char(0, i - 1).to_owned();
            proof {
                assert(path@.subrange(0, i - 1) =~= path@.take(i - 1));
            }
            return Some(dir);
        }
        i = i - 1;
    }
    None
}

/// `rest` under `base`, with one separator between the two.
pub fn join(base: &str, rest: &str) -> (r: String)
    ensures
        r@ == joined(base@, rest@),
{
    let n: usize = base.unicode_len();
    let k: usize = rest.unicode_len();
    let mut out = base.to_owned();
    if k == 0 {
        return out;
    }
    let trailing = has_trailing_separator(base, n);
    let leading = rest.get_char(0) == SEPARATOR;
    if trailing && leading {
        out.append(rest.substring_char(1, k));
        proof {
            assert(rest@.subrange(1, k as int) =~= rest@.skip(1));
        }
    } else if trailing || leading {
        out.append(rest);
    } else {
        proof {
            reveal_strlit("/");
            assert("/"@ =~= seq![SEPARATOR]);
        }
        out.append("/");
        out.append(rest);
    }
    out
}

} // verus!
