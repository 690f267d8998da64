//! Character-level text operations: splitting a path into its components,
//! substring search, and replacement of a token inside a template.
//!
//! Every contract is stated over `Seq<char>`, the view of `str` and
//! `String`: positions and lengths count characters, not bytes.

use vstd::prelude::*;
use vstd::string::*;

verus! {

/// The view of a list of strings.
pub open spec fn texts(v: Seq<String>) -> Seq<Seq<char>> {
    Seq::new(v.len(), |i: int| v[i]@)
}

/// The index of the last occurrence of `c` in `s`, if there is one.
pub open spec fn last_position(s: Seq<char>, c: char) -> Option<int>
    decreases s.len(),
{
    if s.len() == 0 {
        None
    } else if s.last() == c {
        Some(s.len() - 1)
    } else {
        last_position(s.drop_last(), c)
    }
}

/// The part of `path` after its last `/`; the whole path when it has none.
pub open spec fn base_name(path: Seq<char>) -> Seq<char> {
    match last_position(path, '/') {
        Some(i) => path.subrange(i + 1, path.len() as int),
        None => path,
    }
}

/// The part of `path` before its last `/`; empty when it has none.
pub open spec fn parent_dir(path: Seq<char>) -> Seq<char> {
    match last_position(path, '/') {
        Some(i) => path.subrange(0, i),
        None => Seq::empty(),
    }
}

/// The part of the base name after its last `.`, without the dot; `None` when
/// the base name holds no dot.
pub open spec fn extension(path: Seq<char>) -> Option<Seq<char>> {
    let base = base_name(path);
    match last_position(base, '.') {
        Some(i) => Some(base.subrange(i + 1, base.len() as int)),
        None => None,
    }
}

/// `needle` stands in `hay` at index `i`.
pub open spec fn occurs_at(hay: Seq<char>, needle: Seq<char>, i: int) -> bool {
    &&& 0 <= i
    &&& i + needle.len() <= hay.len()
    &&& hay.subrange(i, i + needle.len()) == needle
}

/// `needle` stands somewhere in `hay`. The empty needle stands in every text.
pub open spec fn contains_text(hay: Seq<char>, needle: Seq<char>) -> bool {
    exists|i: int| occurs_at(hay, needle, i)
}

/// `s` with every occurrence of `token` replaced by `with`, scanning from the
/// left; an occurrence that overlaps an earlier replaced one is not one. An
/// empty token replaces nothing.
pub open spec fn replace_all(s: Seq<char>, token: Seq<char>, with: Seq<char>) -> Seq<char>
    decreases s.len(),
{
    if token.len() == 0 || s.len() < token.len() {
        s
    } else if s.subrange(0, token.len() as int) == token {
        with + replace_all(s.subrange(token.len() as int, s.len() as int), token, with)
    } else {
        seq![s[0]] + replace_all(s.subrange(1, s.len() as int), token, with)
    }
}

/// `last_position` names an occurrence of `c` after which `c` does not occur
/// again, and names none only if `c` does not occur.
pub proof fn last_position_is_last(s: Seq<char>, c: char)
    ensures
        match last_position(s, c) {
            Some(i) => {
                &&& 0 <= i < s.len()
                &&& s[i] == c
                &&& forall|j: int| i < j < s.len() ==> s[j] != c
            },
            None => forall|j: int| 0 <= j < s.len() ==> s[j] != c,
        },
    decreases s.len(),
{
    if s.len() > 0 && s.last() != c {
        let front = s.drop_last();
        last_position_is_last(front, c);
        assert forall|j: int| 0 <= j < front.len() implies front[j] == s[j] by {}
    }
}

/// An index that holds `c` and is followed by no other `c` is the last position.
pub proof fn last_position_unique(s: Seq<char>, c: char, i: int)
    requires
        0 <= i < s.len(),
        s[i] == c,
        forall|j: int| i < j < s.len() ==> s[j] != c,
    ensures
        last_position(s, c) == Some(i),
    decreases s.len(),
{
    if s.last() != c {
        last_position_unique(s.drop_last(), c, i);
    }
}

/// A text without `c` has no last position of it.
pub proof fn last_position_absent(s: Seq<char>, c: char)
    requires
        forall|j: int| 0 <= j < s.len() ==> s[j] != c,
    ensures
        last_position(s, c) is None,
    decreases s.len(),
{
    if s.len() > 0 {
        last_position_absent(s.drop_last(), c);
    }
}

/// The characters of `s`, in order.
pub fn chars_of(s: &str) -> (v: Vec<char>)
    ensures
        v@ == s@,
{
    let mut v: Vec<char> = Vec::new();
    for c in it: s.chars()
        invariant
            it.seq() == s@,
            v@ == it.seq().take(it.index() as int),
    {
        v.push(c);
    }
    v
}

/// Whether two texts hold the same characters.
pub fn same_text(a: &str, b: &str) -> (r: bool)
    ensures
        r == (a@ == b@),
{
    let x = chars_of(a);
    let y = chars_of(b);
    if x.len() != y.len() {
        return false;
    }
    let mut i: usize = 0;
    while i < x.len()
        invariant
            i <= x.len(),
            x.len() == y.len(),
            x@ == a@,
            y@ == b@,
            forall|j: int| 0 <= j < i ==> x[j] == y[j],
        decreases x.len() - i,
    {
        if x[i] != y[i] {
            return false;
        }
        i += 1;
    }
    assert(x@ =~= y@);
    true
}

/// The index of the last `c` in `s`.
pub fn last_index_of(s: &Vec<char>, c: char) -> (r: Option<usize>)
    ensures
        match r {
            Some(i) => last_position(s@, c) == Some(i as int),
            None => last_position(s@, c) is None,
        },
{
    let mut i: usize = s.len();
    assert(s@.take(i as int) =~= s@);
    while i > 0
        invariant
            i <= s.len(),
            last_position(s@, c) == last_position(s@.take(i as int), c),
        decreases i,
    {
        if s[i - 1] == c {
            return Some(i - 1);
        }
        assert(s@.take(i as int).drop_last() =~= s@.take(i - 1));
        i -= 1;
    }
    None
}

/// The base name of `path`.
pub fn base_name_of(path: &str) -> (r: String)
    ensures
        r@ == base_name(path@),
{
    let chars = chars_of(path);
    match last_index_of(&chars, '/') {
        Some(i) => {
            proof {
                last_position_is_last(path@, '/');
            }
            path.substring_char(i + 1, chars.len()).to_owned()
        },
        None => path.to_owned(),
    }
}

/// The parent directory of `path`.
pub fn parent_dir_of(path: &str) -> (r: String)
    ensures
        r@ == parent_dir(path@),
{
    let chars = chars_of(path);
    match last_index_of(&chars, '/') {
        Some(i) => {
            proof {
                last_position_is_last(path@, '/');
            }
            path.substring_char(0, i).to_owned()
        },
        None => String::new(),
    }
}

/// The extension of `path`.
pub fn extension_of(path: &str) -> (r: Option<String>)
    ensures
        r is Some == extension(path@) is Some,
        r is Some ==> r.unwrap()@ == extension(path@).unwrap(),
{
    let base = base_name_of(path);
    let chars = chars_of(base.as_str());
    match last_index_of(&chars, '.') {
        Some(i) => {
            proof {
                last_position_is_last(base@, '.');
            }
            Some(base.as_str().substring_char(i + 1, chars.len()).to_owned())
        },
        None => None,
    }
}

/// Whether `needle` stands in `hay` at index `i`.
fn stands_at(hay: &Vec<char>, needle: &Vec<char>, i: usize) -> (r: bool)
    requires
        i + needle.len() <= hay.len(),
    ensures
        r == occurs_at(hay@, needle@, i as int),
{
    let mut k: usize = 0;
    while k < needle.len()
        invariant
            k <= needle.len(),
            i + needle.len() <= hay.len(),
            forall|j: int| 0 <= j < k ==> hay[i + j] == needle[j],
        decreases needle.len() - k,
    {
        if hay[i + k] != needle[k] {
            assert(hay@.subrange(i as int, i + needle.len())[k as int] != needle@[k as int]);
            return false;
        }
        k += 1;
    }
    assert(hay@.subrange(i as int, i + needle.len()) =~= needle@);
    true
}

/// Whether `needle` stands somewhere in `hay`.
pub fn has_substring(hay: &str, needle: &str) -> (r: bool)
    ensures
        r == contains_text(hay@, needle@),
{
    let h = chars_of(hay);
    let n = chars_of(needle);
    if n.len() > h.len() {
        return false;
    }
    let last: usize = h.len() - n.len();
    let mut i: usize = 0;
    loop
        invariant
            i <= last,
            last == h.len() - n.len(),
            h@ == hay@,
            n@ == needle@,
            forall|j: int| 0 <= j < i ==> !occurs_at(h@, n@, j),
        decreases last - i,
    {
        if stands_at(&h, &n, i) {
            return true;
        }
        if i == last {
            return false;
        }
        i += 1;
    }
}

/// `template` with every occurrence of `token` replaced by `with`.
pub fn replace_token(template: &str, token: &str, with: &str) -> (r: String)
    ensures
        r@ == replace_all(template@, token@, with@),
{
    let t = chars_of(template);
    let k = chars_of(token);
    let n: usize = t.len();
    let m: usize = k.len();
    if m == 0 || n < m {
        return template.to_owned();
    }
    let mut out = String::new();
    let mut start: usize = 0;
    let mut i: usize = 0;
    assert(t@.subrange(0, n as int) =~= t@);
    while i <= n - m
        invariant
            0 < m <= n,
            n == t.len(),
            m == k.len(),
            t@ == template@,
            k@ == token@,
            start <= i <= n,
            out@ + t@.subrange(start as int, i as int) + replace_all(
                t@.subrange(i as int, n as int),
                k@,
                with@,
            ) == replace_all(t@, k@, with@),
        decreases n - i,
    {
        let ghost rest = t@.subrange(i as int, n as int);
        if stands_at(&t, &k, i) {
            out.append(template.substring_char(start, i));
            out.append(with);
            proof {
                assert(rest.subrange(0, m as int) =~= t@.subrange(i as int, i + m));
                assert(rest.subrange(m as int, rest.len() as int) =~= t@.subrange(
                    i + m,
                    n as int,
                ));
                assert(t@.subrange(i + m, i + m) =~= Seq::<char>::empty());
            }
            i += m;
            start = i;
        } else {
            proof {
                assert(rest.subrange(0, m as int) =~= t@.subrange(i as int, i + m));
                assert(rest.subrange(1, rest.len() as int) =~= t@.subrange(i + 1, n as int));
                assert(t@.subrange(start as int, i as int) + seq![rest[0]] =~= t@.subrange(
                    start as int,
                    i + 1,
                ));
            }
            i += 1;
        }
    }
    out.append(template.substring_char(start, n));
    proof {
        assert(t@.subrange(start as int, i as int) + t@.subrange(i as int, n as int) =~= t@.subrange(
            start as int,
            n as int,
        ));
    }
    out
}

/// An occurrence in a suffix of `s` is an occurrence in `s`, moved by the
/// length of what was cut off, and the other way round.
pub proof fn occurs_at_suffix(s: Seq<char>, token: Seq<char>, cut: int, j: int)
    requires
        0 <= cut <= s.len(),
        0 <= j,
    ensures
        occurs_at(s.subrange(cut, s.len() as int), token, j) <==> occurs_at(s, token, cut + j),
{
    let tail = s.subrange(cut, s.len() as int);
    if j + token.len() <= tail.len() {
        assert(tail.subrange(j, j + token.len()) =~= s.subrange(cut + j, cut + j + token.len()));
    }
}

/// A template in which the token stands nowhere is passed through unchanged.
pub proof fn template_without_token_is_unchanged(s: Seq<char>, token: Seq<char>, with: Seq<char>)
    requires
        !contains_text(s, token),
    ensures
        replace_all(s, token, with) == s,
    decreases s.len(),
{
    if token.len() != 0 && s.len() >= token.len() {
        assert(!occurs_at(s, token, 0));
        let tail = s.subrange(1, s.len() as int);
        assert forall|j: int| !occurs_at(tail, token, j) by {
            if 0 <= j {
                occurs_at_suffix(s, token, 1, j);
                assert(!occurs_at(s, token, 1 + j));
            }
        }
        template_without_token_is_unchanged(tail, token, with);
        assert(seq![s[0]] + tail =~= s);
    }
}

/// Up to and including the first occurrence of the token, replacement
/// copies what stands before the occurrence and puts `with` in its place.
pub proof fn first_token_is_replaced(s: Seq<char>, token: Seq<char>, with: Seq<char>, p: int)
    requires
        token.len() > 0,
        occurs_at(s, token, p),
        forall|j: int| 0 <= j < p ==> !occurs_at(s, token, j),
    ensures
        replace_all(s, token, with) == s.subrange(0, p) + with + replace_all(
            s.subrange(p + token.len(), s.len() as int),
            token,
            with,
        ),
    decreases p,
{
    let m = token.len() as int;
    let n = s.len() as int;
    if p == 0 {
        assert(s.subrange(0, 0) + with =~= with);
    } else {
        assert(!occurs_at(s, token, 0));
        let tail = s.subrange(1, n);
        occurs_at_suffix(s, token, 1, p - 1);
        assert forall|j: int| 0 <= j < p - 1 implies !occurs_at(tail, token, j) by {
            occurs_at_suffix(s, token, 1, j);
            assert(!occurs_at(s, token, 1 + j));
        }
        first_token_is_replaced(tail, token, with, p - 1);
        assert(tail.subrange(p - 1 + m, tail.len() as int) =~= s.subrange(p + m, n));
        assert(seq![s[0]] + tail.subrange(0, p - 1) =~= s.subrange(0, p));
        assert(seq![s[0]] + (tail.subrange(0, p - 1) + with + replace_all(
            s.subrange(p + m, n),
            token,
            with,
        )) =~= s.subrange(0, p) + with + replace_all(s.subrange(p + m, n), token, with));
    }
}

/// A template that holds the token twice, at `p` and at `q`, has both
/// occurrences replaced by the same text, and the rest left as it is.
pub proof fn two_tokens_are_replaced(
    s: Seq<char>,
    token: Seq<char>,
    with: Seq<char>,
    p: int,
    q: int,
)
    requires
        token.len() > 0,
        occurs_at(s, token, p),
        occurs_at(s, token, q),
        p + token.len() <= q,
        forall|j: int| occurs_at(s, token, j) ==> j == p || j == q,
    ensures
        replace_all(s, token, with) == s.subrange(0, p) + with + s.subrange(p + token.len(), q)
            + with + s.subrange(q + token.len(), s.len() as int),
{
    let m = token.len() as int;
    let n = s.len() as int;
    first_token_is_replaced(s, token, with, p);
    let middle = s.subrange(p + m, n);
    let q1 = q - p - m;
    occurs_at_suffix(s, token, p + m, q1);
    assert forall|j: int| 0 <= j < q1 implies !occurs_at(middle, token, j) by {
        occurs_at_suffix(s, token, p + m, j);
    }
    first_token_is_replaced(middle, token, with, q1);
    let rest = middle.subrange(q1 + m, middle.len() as int);
    assert(rest =~= s.subrange(q + m, n));
    assert forall|j: int| !occurs_at(rest, token, j) by {
        if 0 <= j {
            occurs_at_suffix(s, token, q + m, j);
        }
    }
    template_without_token_is_unchanged(rest, token, with);
    assert(middle.subrange(0, q1) =~= s.subrange(p + m, q));
    assert(s.subrange(0, p) + with + (s.subrange(p + m, q) + with + rest) =~= s.subrange(0, p)
        + with + s.subrange(p + m, q) + with + rest);
}

/// A path that ends in a file name of the form stem, dot, extension has that
/// extension, that base name, and what stands before the last `/` as its
/// parent directory. `front` is empty or ends in `/`.
pub proof fn dotted_name_has_its_extension(front: Seq<char>, stem: Seq<char>, ext: Seq<char>)
    requires
        front.len() == 0 || front.last() == '/',
        !stem.contains('/'),
        !ext.contains('/'),
        !ext.contains('.'),
    ensures
        base_name(front + stem + seq!['.'] + ext) == stem + seq!['.'] + ext,
        parent_dir(front + stem + seq!['.'] + ext) == if front.len() == 0 {
            front
        } else {
            front.drop_last()
        },
        extension(front + stem + seq!['.'] + ext) == Some(ext),
{
    let name = stem + seq!['.'] + ext;
    let path = front + stem + seq!['.'] + ext;
    assert(path =~= front + name);
    assert forall|j: int| 0 <= j < name.len() implies name[j] != '/' by {
        if j < stem.len() {
            assert(stem.contains(name[j]));
        } else if j > stem.len() {
            assert(ext[j - stem.len() - 1] == name[j]);
            assert(ext.contains(name[j]));
        }
    }
    if front.len() == 0 {
        assert(path =~= name);
        last_position_absent(path, '/');
        assert(front =~= Seq::<char>::empty());
    } else {
        let i = front.len() - 1;
        assert forall|j: int| i < j < path.len() implies path[j] != '/' by {
            assert(path[j] == name[j - front.len()]);
        }
        last_position_unique(path, '/', i);
        assert(path.subrange(i + 1, path.len() as int) =~= name);
        assert(path.subrange(0, i) =~= front.drop_last());
    }
    assert(base_name(path) == name);
    let d = stem.len() as int;
    assert forall|j: int| d < j < name.len() implies name[j] != '.' by {
        assert(ext[j - d - 1] == name[j]);
        assert(ext.contains(name[j]));
    }
    last_position_unique(name, '.', d);
    assert(name.subrange(d + 1, name.len() as int) =~= ext);
}

/// A path whose base name holds no dot has no extension.
pub proof fn dotless_name_has_no_extension(path: Seq<char>)
    requires
        !base_name(path).contains('.'),
    ensures
        extension(path) is None,
{
    last_position_absent(base_name(path), '.');
}

} // verus!
