//! Paths as plain strings with `/` as the separator.
use vstd::prelude::*;
use vstd::string::*;

use crate::error::Error;

verus! {

/// A path is absolute when it starts with the separator.
pub open spec fn is_absolute(p: Seq<char>) -> bool {
    p.len() > 0 && p[0] == '/'
}

/// `child` resolved against `parent`: an absolute child stands for itself,
/// any other child is appended, with one separator in between unless the
/// parent is empty or already ends in one.
pub open spec fn join_spec(parent: Seq<char>, child: Seq<char>) -> Seq<char> {
    if is_absolute(child) {
        child
    } else if parent.len() == 0 || parent.last() == '/' {
        parent + child
    } else {
        parent + seq!['/'] + child
    }
}

/// The index of the last separator in `p`, or -1 when it holds none.
pub open spec fn last_separator(p: Seq<char>) -> int
    decreases p.len(),
{
    if p.len() == 0 {
        -1
    } else if p.last() == '/' {
        p.len() - 1
    } else {
        last_separator(p.drop_last())
    }
}

/// The path one level up: what stands before the last separator, the root
/// `/` for a direct child of the root, the empty path for a single relative
/// name. The root and the empty path have no parent.
pub open spec fn parent_spec(p: Seq<char>) -> Option<Seq<char>> {
    let i = last_separator(p);
    if i < 0 {
        if p.len() == 0 {
            None
        } else {
            Some(Seq::empty())
        }
    } else if i == 0 {
        if p.len() == 1 {
            None
        } else {
            Some(seq!['/'])
        }
    } else {
        Some(p.subrange(0, i))
    }
}

/// The first `upto` characters of `p` with each run of separators
/// reduced to one separator.
pub open spec fn squeezed(p: Seq<char>, upto: int) -> Seq<char>
    decreases upto,
{
    if upto <= 0 {
        Seq::empty()
    } else if p[upto - 1] == '/' && upto >= 2 && p[upto - 2] == '/' {
        squeezed(p, upto - 1)
    } else {
        squeezed(p, upto - 1).push(p[upto - 1])
    }
}

/// The normal form of a path: each run of separators is one separator,
/// and no separator closes the path unless the path is the root.
pub open spec fn normal_spec(p: Seq<char>) -> Seq<char> {
    let s = squeezed(p, p.len() as int);
    if s.len() > 1 && s.last() == '/' {
        s.drop_last()
    } else {
        s
    }
}

/// The path is in normal form: no separator follows a separator, and
/// none closes the path unless the path is the root.
pub open spec fn is_normal(p: Seq<char>) -> bool {
    &&& forall|i: int| 0 <= i < p.len() - 1 ==> !(p[i] == '/' && #[trigger] p[i + 1] == '/')
    &&& p.len() > 1 ==> p.last() != '/'
}

/// The tilde form of a path: `~` alone or `~/` followed by anything.
pub open spec fn has_tilde_prefix(p: Seq<char>) -> bool {
    p.len() > 0 && p[0] == '~' && (p.len() == 1 || p[1] == '/')
}

/// The number of separators that follow the tilde.
pub open spec fn separators_from(p: Seq<char>, from: int) -> int
    decreases p.len() - from,
{
    if 0 <= from < p.len() && p[from] == '/' {
        1 + separators_from(p, from + 1)
    } else {
        0
    }
}

/// `p` with a leading tilde replaced by the home directory.
pub open spec fn expand_spec(p: Seq<char>, home: Seq<char>) -> Seq<char> {
    if has_tilde_prefix(p) {
        let rest = p.subrange(1 + separators_from(p, 1), p.len() as int);
        if rest.len() == 0 {
            home
        } else {
            join_spec(home, rest)
        }
    } else {
        p
    }
}

/// Whether `p` can be made absolute: after expansion, which needs a home
/// directory where `p` has the tilde form, it starts at the root.
pub open spec fn resolvable(p: Seq<char>, home: Option<Seq<char>>) -> bool {
    if has_tilde_prefix(p) {
        home.is_some() && is_absolute(expand_spec(p, home.unwrap()))
    } else {
        is_absolute(p)
    }
}

/// The last separator lies in the path, and no separator follows it.
pub proof fn lemma_last_separator(p: Seq<char>)
    ensures
        -1 <= last_separator(p) < p.len(),
        last_separator(p) >= 0 ==> p[last_separator(p)] == '/',
        forall|j: int| last_separator(p) < j < p.len() ==> p[j] != '/',
    decreases p.len(),
{
    if p.len() > 0 && p.last() != '/' {
        let q = p.drop_last();
        lemma_last_separator(q);
        assert forall|j: int| last_separator(p) < j < p.len() implies p[j] != '/' by {
            if j < q.len() {
                assert(q[j] == p[j]);
            }
        }
    }
}

/// Resolves `child` against `parent`.
pub fn join(parent: &str, child: &str) -> (joined: String)
    ensures
        joined@ == join_spec(parent@, child@),
{
    let child_len: usize = child.unicode_len();
    if child_len > 0 && child.get_char(0) == '/' {
        return String::from_str(child);
    }
    let parent_len: usize = parent.unicode_len();
    let mut joined = String::from_str(parent);
    if parent_len > 0 && parent.get_char(parent_len - 1) != '/' {
        proof {
            reveal_strlit("/");
        }
        joined.append("/");
        assert(joined@ =~= parent@ + seq!['/']);
    }
    joined.append(child);
    joined
}

/// The path one level up, if there is one.
pub fn parent(path: &str) -> (up: Option<String>)
    ensures
        match up {
            Some(s) => parent_spec(path@) == Some(s@),
            None => parent_spec(path@).is_none(),
        },
{
    let len: usize = path.unicode_len();
    let mut i: usize = len;
    assert(path@.subrange(0, len as int) =~= path@);
    while i > 0 && path.get_char(i - 1) != '/'
        invariant
            i <= len,
            len == path@.len(),
            last_separator(path@) == last_separator(path@.subrange(0, i as int)),
        decreases i,
    {
        proof {
            let s = path@.subrange(0, i as int);
            assert(s.drop_last() =~= path@.subrange(0, i - 1));
        }
        i = i - 1;
    }
    proof {
        assert(path@.subrange(0, len as int) =~= path@);
        lemma_last_separator(path@);
        let s = path@.subrange(0, i as int);
        if i > 0 {
            assert(s.last() == '/');
        }
    }
    if i == 0 {
        if len == 0 {
            None
        } else {
            Some(String::new())
        }
    } else if i == 1 {
        if len == 1 {
            None
        } else {
            proof {
                reveal_strlit("/");
            }
            let up = String::from_str("/");
            assert(up@ =~= seq!['/']);
            Some(up)
        }
    } else {
        Some(String::from_str(path.substring_char(0, i - 1)))
    }
}

/// The strings of `list` as values.
pub open spec fn strings_view(list: Seq<String>) -> Seq<Seq<char>> {
    Seq::new(list.len(), |i: int| list[i]@)
}

/// A string as a value, if there is one.
pub open spec fn option_str_view(s: Option<&str>) -> Option<Seq<char>> {
    match s {
        Some(s) => Some(s@),
        None => None,
    }
}

/// What making `path` absolute comes to where `home` is the home
/// directory, if one is known: the path with a leading tilde replaced by
/// the home directory where that is absolute, and a path error for `path`
/// where it is not.
pub open spec fn made_absolute(made: Result<String, Error>, path: Seq<char>, home: Option<Seq<char>>) -> bool {
    match made {
        Ok(s) => resolvable(path, home) && s@ == expand_spec(path, home.unwrap()),
        Err(Error::Path(p)) => !resolvable(path, home) && p@ == path,
        Err(_) => false,
    }
}

/// The home directory of the current user as `home_dir` of the `home`
/// crate finds it in the environment, where it is valid text. Nothing is
/// claimed of it.
#[verifier::external_body]
fn home_directory() -> (home: Option<String>) {
    match home::home_dir() {
        Some(dir) => dir.into_os_string().into_string().ok(),
        None => None,
    }
}

/// Makes `path` absolute: a leading tilde is replaced by `home`, the home
/// directory if one is known. A path that is still relative afterwards, or
/// that needs a home directory where none is known, is a path error.
pub fn try_absolute_path_from(path: &str, home: Option<&str>) -> (made: Result<String, Error>)
    ensures
        made_absolute(made, path@, option_str_view(home)),
{
    let len: usize = path.unicode_len();
    if len > 0 && path.get_char(0) == '~' && (len == 1 || path.get_char(1) == '/') {
        let Some(h) = home else {
            return Err(Error::Path(String::from_str(path)));
        };
        let mut k: usize = 1;
        while k < len && path.get_char(k) == '/'
            invariant
                1 <= k <= len,
                len == path@.len(),
                separators_from(path@, 1) == (k - 1) + separators_from(path@, k as int),
            decreases len - k,
        {
            k = k + 1;
        }
        let expanded = if k == len {
            String::from_str(h)
        } else {
            join(h, path.substring_char(k, len))
        };
        if expanded.as_str().unicode_len() > 0 && expanded.as_str().get_char(0) == '/' {
            Ok(expanded)
        } else {
            Err(Error::Path(String::from_str(path)))
        }
    } else if len > 0 && path.get_char(0) == '/' {
        Ok(String::from_str(path))
    } else {
        Err(Error::Path(String::from_str(path)))
    }
}

/// Makes `path` absolute, with the home directory of the current user
/// for a leading tilde. Whatever the environment gives as the home
/// directory, the path is made absolute with it as
/// [`try_absolute_path_from`] does; a path without a leading tilde does not
/// depend on it.
pub fn try_absolute_path(path: &str) -> (made: Result<String, Error>)
    ensures
        exists|home: Option<Seq<char>>| made_absolute(made, path@, home),
        !has_tilde_prefix(path@) ==> made_absolute(made, path@, None),
{
    let home = home_directory();
    let made = match &home {
        Some(h) => try_absolute_path_from(path, Some(h.as_str())),
        None => try_absolute_path_from(path, None),
    };
    proof {
        let known = match home {
            Some(h) => Some(h@),
            None => None,
        };
        assert(made_absolute(made, path@, known));
    }
    made
}

/// What is squeezed holds no separator behind a separator, ends as the
/// part of the path that it was made from ends, and is empty only if that
/// part is.
pub proof fn lemma_squeezed(p: Seq<char>, upto: int)
    requires
        0 <= upto <= p.len(),
    ensures
        forall|i: int|
            0 <= i < squeezed(p, upto).len() - 1 ==> !(squeezed(p, upto)[i] == '/'
                && #[trigger] squeezed(p, upto)[i + 1] == '/'),
        upto > 0 ==> squeezed(p, upto).len() > 0 && squeezed(p, upto).last() == p[upto - 1],
        squeezed(p, upto).len() <= upto,
    decreases upto,
{
    if upto > 0 {
        lemma_squeezed(p, upto - 1);
        let before = squeezed(p, upto - 1);
        let now = squeezed(p, upto);
        if !(p[upto - 1] == '/' && upto >= 2 && p[upto - 2] == '/') {
            assert forall|i: int| 0 <= i < now.len() - 1 implies !(now[i] == '/'
                && #[trigger] now[i + 1] == '/') by {
                if i + 1 < before.len() {
                    assert(now[i] == before[i]);
                    assert(now[i + 1] == before[i + 1]);
                } else {
                    assert(now[i] == before[i]);
                }
            }
        }
    }
}

/// What is made normal is in normal form.
pub proof fn lemma_normal_is_normal(p: Seq<char>)
    ensures
        is_normal(normal_spec(p)),
{
    lemma_squeezed(p, p.len() as int);
    let s = squeezed(p, p.len() as int);
    let normal = normal_spec(p);
    if s.len() > 1 && s.last() == '/' {
        assert forall|i: int| 0 <= i < normal.len() - 1 implies !(normal[i] == '/'
            && #[trigger] normal[i + 1] == '/') by {
            assert(normal[i] == s[i]);
            assert(normal[i + 1] == s[i + 1]);
        }
        if normal.len() > 1 {
            assert(normal.last() == s[s.len() - 2]);
            assert(s[s.len() - 2 + 1] == '/');
        }
    }
}

/// A path in normal form stays as it is.
pub proof fn lemma_normal_stays(p: Seq<char>)
    requires
        is_normal(p),
    ensures
        normal_spec(p) == p,
{
    lemma_squeezed_stays(p, p.len() as int);
    assert(p.take(p.len() as int) =~= p);
}

/// Where no separator follows a separator, squeezing changes nothing.
pub proof fn lemma_squeezed_stays(p: Seq<char>, upto: int)
    requires
        0 <= upto <= p.len(),
        forall|i: int| 0 <= i < p.len() - 1 ==> !(p[i] == '/' && #[trigger] p[i + 1] == '/'),
    ensures
        squeezed(p, upto) == p.take(upto),
    decreases upto,
{
    if upto > 0 {
        lemma_squeezed_stays(p, upto - 1);
        if upto >= 2 {
            assert(!(p[upto - 2] == '/' && p[upto - 2 + 1] == '/'));
        }
        assert(p.take(upto - 1).push(p[upto - 1]) =~= p.take(upto));
    } else {
        assert(p.take(upto) =~= Seq::<char>::empty());
    }
}

/// Puts `path` in normal form.
pub fn normalize(path: &str) -> (normal: String)
    ensures
        normal@ == normal_spec(path@),
{
    let n: usize = path.unicode_len();
    let mut out = String::new();
    let mut after_separator = false;
    let mut i: usize = 0;
    while i < n
        invariant
            i <= n,
            n == path@.len(),
            out@ == squeezed(path@, i as int),
            after_separator == (i > 0 && path@[i - 1] == '/'),
        decreases n - i,
    {
        let c = path.get_char(i);
        if !(c == '/' && after_separator) {
            let ghost before = out@;
            out.append(path.substring_char(i, i + 1));
            assert(out@ =~= before.push(path@[i as int]));
        }
        after_separator = c == '/';
        i = i + 1;
    }
    proof {
        lemma_squeezed(path@, n as int);
    }
    let len: usize = out.as_str().unicode_len();
    if len > 1 && out.as_str().get_char(len - 1) == '/' {
        let cut = String::from_str(out.as_str().substring_char(0, len - 1));
        assert(cut@ =~= out@.drop_last());
        cut
    } else {
        out
    }
}

/// A name of one level: not empty, and without a separator.
pub open spec fn is_name(name: Seq<char>) -> bool {
    name.len() > 0 && forall|i: int| 0 <= i < name.len() ==> name[i] != '/'
}

/// Behind a separator that only characters of a name follow, no later
/// separator stands.
pub proof fn lemma_last_separator_before(before: Seq<char>, name: Seq<char>)
    requires
        forall|i: int| 0 <= i < name.len() ==> name[i] != '/',
    ensures
        last_separator(before.push('/') + name) == before.len(),
    decreases name.len(),
{
    let p = before.push('/') + name;
    if name.len() == 0 {
        assert(p =~= before.push('/'));
    } else {
        assert(p.last() == name.last());
        assert(p.drop_last() =~= before.push('/') + name.drop_last());
        lemma_last_separator_before(before, name.drop_last());
    }
}

/// In normal form, going up reverses joining: the path one level above
/// an absolute path joined with a name is that path, and the joined path
/// is absolute and in normal form again.
pub proof fn lemma_parent_of_join(path: Seq<char>, name: Seq<char>)
    requires
        is_absolute(path),
        is_normal(path),
        is_name(name),
    ensures
        parent_spec(join_spec(path, name)) == Some(path),
        is_absolute(join_spec(path, name)),
        is_normal(join_spec(path, name)),
{
    let joined = join_spec(path, name);
    if path.len() == 1 {
        assert(path =~= seq!['/']);
        assert(joined =~= Seq::<char>::empty().push('/') + name);
        lemma_last_separator_before(Seq::empty(), name);
        assert forall|i: int| 0 <= i < joined.len() - 1 implies !(joined[i] == '/'
            && #[trigger] joined[i + 1] == '/') by {
            assert(joined[i + 1] == name[i]);
        }
        assert(joined.last() == name.last());
    } else {
        assert(path.last() != '/');
        assert(joined =~= path.push('/') + name);
        lemma_last_separator_before(path, name);
        assert(joined.subrange(0, path.len() as int) =~= path);
        assert forall|i: int| 0 <= i < joined.len() - 1 implies !(joined[i] == '/'
            && #[trigger] joined[i + 1] == '/') by {
            if i + 1 < path.len() {
                assert(joined[i] == path[i]);
                assert(joined[i + 1] == path[i + 1]);
            } else if i + 1 == path.len() {
                assert(joined[i] == path.last());
            } else {
                assert(joined[i + 1] == name[i - path.len()]);
            }
        }
        assert(joined.last() == name.last());
    }
}

} // verus!
