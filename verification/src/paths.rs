//! Slash-separated paths as text: joining, and taking the last component
//! apart.

use vstd::prelude::*;

use crate::text::{chars_of, joined3, string_of};
use vstd::string::StringExecFns;

verus! {

/// `base` extended by `rest`: an absolute `rest` replaces `base`, else one
/// slash stands between the two.
pub open spec fn path_join(base: Seq<char>, rest: Seq<char>) -> Seq<char> {
    if rest.len() > 0 && rest[0] == '/' {
        rest
    } else if base.len() == 0 || base.last() == '/' {
        base + rest
    } else {
        base + "/"@ + rest
    }
}

/// `base` extended by `rest`.
pub fn join(base: &str, rest: &str) -> (r: String)
    ensures
        r@ == path_join(base@, rest@),
{
    let b: Vec<char> = chars_of(base);
    let t: Vec<char> = chars_of(rest);
    if t.len() > 0 && t[0] == '/' {
        rest.to_owned()
    } else if b.len() == 0 || b[b.len() - 1] == '/' {
        crate::text::joined(base, rest)
    } else {
        joined3(base, "/", rest)
    }
}

/// A path without trailing slashes and without trailing components that name
/// the directory before them.
pub open spec fn trimmed(s: Seq<char>) -> Seq<char>
    decreases s.len(),
{
    if s.len() > 0 && s.last() == '/' {
        trimmed(s.drop_last())
    } else if s.len() > 1 && s.last() == '.' && s[s.len() - 2] == '/' {
        trimmed(s.drop_last())
    } else {
        s
    }
}

/// The place after the last `mark`, or zero where there is none.
pub open spec fn after_last(s: Seq<char>, mark: char) -> int
    decreases s.len(),
{
    if s.len() == 0 {
        0
    } else if s.last() == mark {
        s.len() as int
    } else {
        after_last(s.drop_last(), mark)
    }
}

/// The last component of a path, where that is a name.
pub open spec fn file_name(s: Seq<char>) -> Option<Seq<char>> {
    let t = trimmed(s);
    let name = t.skip(after_last(t, '/'));
    if name.len() == 0 || name == "."@ || name == ".."@ {
        None
    } else {
        Some(name)
    }
}

/// Where the extension of a file name starts: after its last dot, unless that
/// is its first character.
pub open spec fn extension_start(name: Seq<char>) -> Option<int> {
    if after_last(name, '.') > 1 {
        Some(after_last(name, '.'))
    } else {
        None
    }
}

/// A file name without its extension.
pub open spec fn name_stem(name: Seq<char>) -> Seq<char> {
    match extension_start(name) {
        Some(at) => name.take(at - 1),
        None => name,
    }
}

/// The last component of a path without its extension.
pub open spec fn file_stem(s: Seq<char>) -> Option<Seq<char>> {
    match file_name(s) {
        Some(name) => Some(name_stem(name)),
        None => None,
    }
}

/// The extension of the last component of a path.
pub open spec fn extension(s: Seq<char>) -> Option<Seq<char>> {
    match file_name(s) {
        Some(name) => match extension_start(name) {
            Some(at) => Some(name.skip(at)),
            None => None,
        },
        None => None,
    }
}

/// A path with another extension; a path without a file name stays as it is.
pub open spec fn path_with_extension(s: Seq<char>, ext: Seq<char>) -> Seq<char> {
    match file_name(s) {
        Some(name) => {
            let t = trimmed(s);
            let kept = t.take(t.len() - name.len()) + name_stem(name);
            if ext.len() == 0 {
                kept
            } else {
                kept + "."@ + ext
            }
        },
        None => s,
    }
}

/// `after_last` on the first `to` characters.
pub(crate) fn find_after_last(chars: &Vec<char>, from: usize, to: usize, mark: char) -> (r: usize)
    requires
        from <= to <= chars.len(),
    ensures
        r == from + after_last(chars@.subrange(from as int, to as int), mark),
        from <= r <= to,
{
    let mut i: usize = to;
    let ghost whole = chars@.subrange(from as int, to as int);
    while i > from && chars[i - 1] != mark
        invariant
            from <= i <= to <= chars.len(),
            whole == chars@.subrange(from as int, to as int),
            after_last(whole, mark) == after_last(chars@.subrange(from as int, i as int), mark),
        decreases i,
    {
        proof {
            assert(chars@.subrange(from as int, i as int).drop_last() =~= chars@.subrange(
                from as int,
                i - 1,
            ));
        }
        i = i - 1;
    }
    proof {
        let rest = chars@.subrange(from as int, i as int);
        if i > from {
            assert(rest.last() == mark);
        } else {
            assert(rest.len() == 0);
        }
    }
    i
}

/// The length of a path without trailing slashes and dots.
fn trimmed_len(chars: &Vec<char>) -> (r: usize)
    ensures
        r <= chars.len(),
        chars@.take(r as int) == trimmed(chars@),
{
    let mut n: usize = chars.len();
    proof {
        assert(chars@.take(n as int) =~= chars@);
    }
    while n > 0 && (chars[n - 1] == '/' || (n > 1 && chars[n - 1] == '.' && chars[n - 2] == '/'))
        invariant
            n <= chars.len(),
            trimmed(chars@) == trimmed(chars@.take(n as int)),
        decreases n,
    {
        proof {
            assert(chars@.take(n as int).drop_last() =~= chars@.take(n - 1));
        }
        n = n - 1;
    }
    n
}

/// Where the file name of a path stands: its start and its end.
fn locate_name(chars: &Vec<char>) -> (r: Option<(usize, usize)>)
    ensures
        match r {
            Some((start, end)) => {
                &&& start <= end <= chars.len()
                &&& trimmed(chars@) == chars@.take(end as int)
                &&& file_name(chars@) == Some(chars@.subrange(start as int, end as int))
            },
            None => file_name(chars@) is None,
        },
{
    let end: usize = trimmed_len(chars);
    let start: usize = find_after_last(chars, 0, end, '/');
    proof {
        reveal_strlit(".");
        reveal_strlit("..");
        assert(chars@.subrange(0, end as int) =~= chars@.take(end as int));
        assert(chars@.take(end as int).skip(start as int) =~= chars@.subrange(
            start as int,
            end as int,
        ));
    }
    let ghost name = chars@.subrange(start as int, end as int);
    let len: usize = end - start;
    if len == 0 {
        return None;
    }
    if len == 1 && chars[start] == '.' {
        proof {
            assert(name =~= "."@);
        }
        return None;
    }
    if len == 2 && chars[start] == '.' && chars[start + 1] == '.' {
        proof {
            assert(name =~= ".."@);
        }
        return None;
    }
    proof {
        if name == "."@ {
            assert(name[0] == '.');
            assert(chars@[start as int] == '.');
        }
        if name == ".."@ {
            assert(name[0] == '.' && name[1] == '.');
        }
    }
    Some((start, end))
}

/// The last component of `path`, where that is a name.
pub fn path_file_name(path: &str) -> (r: Option<String>)
    ensures
        match r {
            Some(name) => file_name(path@) == Some(name@),
            None => file_name(path@) is None,
        },
{
    let chars: Vec<char> = chars_of(path);
    match locate_name(&chars) {
        Some((start, end)) => Some(string_of(&chars, start, end)),
        None => None,
    }
}

/// The last component of `path` without its extension.
pub fn path_file_stem(path: &str) -> (r: Option<String>)
    ensures
        match r {
            Some(stem) => file_stem(path@) == Some(stem@),
            None => file_stem(path@) is None,
        },
{
    let chars: Vec<char> = chars_of(path);
    match locate_name(&chars) {
        Some((start, end)) => {
            let at: usize = find_after_last(&chars, start, end, '.');
            let ghost name = chars@.subrange(start as int, end as int);
            if at - start > 1 {
                proof {
                    assert(name.take(at - start - 1) =~= chars@.subrange(
                        start as int,
                        at - 1,
                    ));
                }
                Some(string_of(&chars, start, at - 1))
            } else {
                Some(string_of(&chars, start, end))
            }
        },
        None => None,
    }
}

/// The extension of the last component of `path`.
pub fn path_extension(path: &str) -> (r: Option<String>)
    ensures
        match r {
            Some(ext) => extension(path@) == Some(ext@),
            None => extension(path@) is None,
        },
{
    let chars: Vec<char> = chars_of(path);
    match locate_name(&chars) {
        Some((start, end)) => {
            let at: usize = find_after_last(&chars, start, end, '.');
            let ghost name = chars@.subrange(start as int, end as int);
            if at - start > 1 {
                proof {
                    assert(name.skip(at - start) =~= chars@.subrange(at as int, end as int));
                }
                Some(string_of(&chars, at, end))
            } else {
                None
            }
        },
        None => None,
    }
}

/// `path` with the extension `ext`.
pub fn with_extension(path: &str, ext: &str) -> (r: String)
    ensures
        r@ == path_with_extension(path@, ext@),
{
    let chars: Vec<char> = chars_of(path);
    match locate_name(&chars) {
        Some((start, end)) => {
            let at: usize = find_after_last(&chars, start, end, '.');
            let ghost name = chars@.subrange(start as int, end as int);
            let keep: usize = if at - start > 1 {
                at - 1
            } else {
                end
            };
            let mut out: String = string_of(&chars, 0, keep);
            proof {
                let t = trimmed(path@);
                assert(t.take(t.len() - name.len()) + name_stem(name) =~= chars@.subrange(
                    0,
                    keep as int,
                ));
            }
            if !ext.is_empty() {
                out.append(".");
                out.append(ext);
            }
            out
        },
        None => path.to_owned(),
    }
}

/// A name that a path can end in: not empty, without a slash, and not one of
/// the two names for directories.
pub open spec fn is_plain_name(name: Seq<char>) -> bool {
    &&& name.len() > 0
    &&& !name.contains('/')
    &&& name != "."@
    &&& name != ".."@
}

proof fn lemma_after_last(s: Seq<char>, mark: char)
    ensures
        0 <= after_last(s, mark) <= s.len(),
        forall|i: int| after_last(s, mark) <= i < s.len() ==> s[i] != mark,
    decreases s.len(),
{
    if s.len() > 0 && s.last() != mark {
        lemma_after_last(s.drop_last(), mark);
        assert forall|i: int| after_last(s, mark) <= i < s.len() implies s[i] != mark by {
            if i < s.len() - 1 {
                assert(s.drop_last()[i] == s[i]);
            }
        }
    }
}

/// The last `mark` of a text stands where what follows it has none.
pub proof fn lemma_after_last_append(a: Seq<char>, b: Seq<char>, mark: char)
    requires
        !b.contains(mark),
        a.len() == 0 || a.last() == mark,
    ensures
        after_last(a + b, mark) == a.len(),
    decreases b.len(),
{
    if b.len() == 0 {
        assert(a + b =~= a);
    } else {
        assert((a + b).last() == b.last());
        assert(b[b.len() - 1] != mark);
        assert((a + b).drop_last() =~= a + b.drop_last());
        assert(!b.drop_last().contains(mark)) by {
            assert forall|i: int| 0 <= i < b.drop_last().len() implies b.drop_last()[i] != mark by {
                assert(b[i] != mark);
            }
        }
        lemma_after_last_append(a, b.drop_last(), mark);
    }
}

/// The last component of a path, where it has one, is a plain name.
pub proof fn law_file_name_is_plain(s: Seq<char>)
    ensures
        file_name(s) matches Some(name) ==> is_plain_name(name),
{
    let t = trimmed(s);
    let at = after_last(t, '/');
    lemma_after_last(t, '/');
    let name = t.skip(at);
    assert(!name.contains('/')) by {
        assert forall|i: int| 0 <= i < name.len() implies name[i] != '/' by {
            assert(name[i] == t[at + i]);
        }
    }
}

/// A path that ends in a plain name, at its start or after a slash, has that
/// name as its last component.
proof fn lemma_ends_in_name(base: Seq<char>, name: Seq<char>)
    requires
        is_plain_name(name),
        base.len() == 0 || base.last() == '/',
    ensures
        trimmed(base + name) == base + name,
        file_name(base + name) == Some(name),
{
    let s = base + name;
    reveal_strlit(".");
    assert(s.last() == name.last());
    assert(name[name.len() - 1] != '/');
    if s.len() > 1 && s.last() == '.' && s[s.len() - 2] == '/' {
        if name.len() == 1 {
            assert(name =~= "."@);
        } else {
            assert(s[s.len() - 2] == name[name.len() - 2]);
            assert(name[name.len() - 2] != '/');
        }
    }
    lemma_after_last_append(base, name, '/');
    assert(s.skip(base.len() as int) =~= name);
}

/// A path joined with a plain name ends in that name, and nothing but a slash
/// is put before it.
pub proof fn law_joined_name(base: Seq<char>, name: Seq<char>)
    requires
        is_plain_name(name),
    ensures
        file_name(path_join(base, name)) == Some(name),
        path_join(base, name) == (if base.len() == 0 || base.last() == '/' {
            base + name
        } else {
            base + "/"@ + name
        }),
{
    reveal_strlit("/");
    assert(name[0] != '/');
    if base.len() == 0 || base.last() == '/' {
        lemma_ends_in_name(base, name);
    } else {
        let b = base + "/"@;
        assert(b.last() == '/');
        lemma_ends_in_name(b, name);
    }
}

/// Two plain names joined to two paths give the same path only if the names
/// are the same.
pub proof fn law_joined_names_differ(base1: Seq<char>, name1: Seq<char>, base2: Seq<char>, name2: Seq<char>)
    requires
        is_plain_name(name1),
        is_plain_name(name2),
        path_join(base1, name1) == path_join(base2, name2),
    ensures
        name1 == name2,
{
    law_joined_name(base1, name1);
    law_joined_name(base2, name2);
}

/// Another extension changes the last component alone: it keeps its stem.
pub proof fn law_with_extension(s: Seq<char>, ext: Seq<char>)
    requires
        file_name(s) is Some,
        ext.len() > 0,
        !ext.contains('/'),
    ensures
        file_name(path_with_extension(s, ext)) == Some(
            name_stem(file_name(s)->Some_0) + "."@ + ext,
        ),
        name_stem(file_name(s)->Some_0).len() > 0,
{
    reveal_strlit(".");
    reveal_strlit("..");
    let name = file_name(s)->Some_0;
    let t = trimmed(s);
    let at = after_last(t, '/');
    law_file_name_is_plain(s);
    lemma_after_last(t, '/');
    lemma_after_last(name, '.');
    let base = t.take(t.len() - name.len());
    let stem = name_stem(name);
    let new_name = stem + "."@ + ext;
    assert(base =~= t.take(at));
    assert(base.len() == 0 || base.last() == '/') by {
        lemma_mark_before(t, '/');
    }
    assert(!new_name.contains('/')) by {
        assert forall|i: int| 0 <= i < new_name.len() implies new_name[i] != '/' by {
            if i < stem.len() {
                assert(new_name[i] == name[i]);
            } else if i == stem.len() {
                assert(new_name[i] == '.');
            } else {
                assert(new_name[i] == ext[i - stem.len() - 1]);
            }
        }
    }
    assert(new_name.len() >= 3);
    assert(path_with_extension(s, ext) =~= base + new_name);
    lemma_ends_in_name(base, new_name);
}

proof fn lemma_mark_before(s: Seq<char>, mark: char)
    ensures
        after_last(s, mark) > 0 ==> s[after_last(s, mark) - 1] == mark,
    decreases s.len(),
{
    if s.len() > 0 && s.last() != mark {
        lemma_mark_before(s.drop_last(), mark);
        lemma_after_last(s.drop_last(), mark);
    }
}

/// A name that begins with text without a dot has a stem that begins with it.
pub proof fn lemma_stem_keeps_undotted_prefix(prefix: Seq<char>, rest: Seq<char>)
    requires
        !prefix.contains('.'),
        prefix.len() > 0,
    ensures
        crate::text::begins_with(name_stem(prefix + rest), prefix),
{
    let name = prefix + rest;
    lemma_after_last(name, '.');
    lemma_mark_before(name, '.');
    let at = after_last(name, '.');
    if at > 1 {
        if at <= prefix.len() {
            assert(prefix[at - 1] == name[at - 1]);
            assert(prefix.contains('.'));
        }
        assert(name.take(at - 1).take(prefix.len() as int) =~= prefix);
    } else {
        assert(name.take(prefix.len() as int) =~= prefix);
    }
}

/// An extension with a dot inside always gives another file name.
pub proof fn law_dotted_extension_renames(s: Seq<char>, ext: Seq<char>)
    requires
        file_name(s) is Some,
        ext.contains('.'),
        !ext.contains('/'),
    ensures
        file_name(path_with_extension(s, ext)) is Some,
        file_name(path_with_extension(s, ext)) != file_name(s),
{
    reveal_strlit(".");
    law_with_extension(s, ext);
    let name = file_name(s)->Some_0;
    let stem = name_stem(name);
    let renamed = stem + "."@ + ext;
    let k = choose|k: int| 0 <= k < ext.len() && ext[k] == '.';
    lemma_after_last(name, '.');
    if renamed == name {
        let at = after_last(name, '.');
        assert(renamed[stem.len() + 1 + k] == '.');
        assert(at > stem.len() + 1 + k);
        assert(stem.len() == at - 1);
    }
}

/// Different extensions give different file names.
pub proof fn law_extensions_differ(s: Seq<char>, ext1: Seq<char>, ext2: Seq<char>)
    requires
        file_name(s) is Some,
        ext1 != ext2,
        ext1.len() > 0,
        ext2.len() > 0,
        !ext1.contains('/'),
        !ext2.contains('/'),
    ensures
        file_name(path_with_extension(s, ext1)) != file_name(path_with_extension(s, ext2)),
{
    law_with_extension(s, ext1);
    law_with_extension(s, ext2);
    let stem = name_stem(file_name(s)->Some_0) + "."@;
    if stem + ext1 == stem + ext2 {
        assert((stem + ext1).skip(stem.len() as int) =~= ext1);
        assert((stem + ext2).skip(stem.len() as int) =~= ext2);
    }
}

/// A name with a dot has as its extension what follows the last dot, and as
/// its stem what comes before that dot, in whatever directory it lies. Another
/// extension takes the place of what follows that dot.
pub proof fn law_stem_and_extension(base: Seq<char>, stem: Seq<char>, ext: Seq<char>, other: Seq<char>)
    requires
        stem.len() > 0,
        !stem.contains('/'),
        !ext.contains('/'),
        !ext.contains('.'),
        stem + "."@ + ext != ".."@,
    ensures
        file_stem(path_join(base, stem + "."@ + ext)) == Some(stem),
        extension(path_join(base, stem + "."@ + ext)) == Some(ext),
        other.len() > 0 ==> path_with_extension(path_join(base, stem + "."@ + ext), other)
            == path_join(base, stem + "."@ + other),
        path_with_extension(path_join(base, stem + "."@ + ext), Seq::empty()) == path_join(
            base,
            stem,
        ),
{
    reveal_strlit(".");
    reveal_strlit("..");
    reveal_strlit("/");
    let name = stem + "."@ + ext;
    assert(name.len() >= 2);
    lemma_join_has_no_slash(stem, ext);
    law_joined_name(base, name);
    let before = stem + "."@;
    assert(before.last() == '.');
    lemma_after_last_append(before, ext, '.');
    assert(name.take(before.len() - 1) =~= stem);
    assert(name.skip(before.len() as int) =~= ext);
    let path = path_join(base, name);
    let lead = if base.len() == 0 || base.last() == '/' {
        base
    } else {
        base + "/"@
    };
    assert(path =~= lead + name);
    lemma_ends_in_name(lead, name);
    assert(path.take(path.len() - name.len()) =~= lead);
    assert(stem[0] != '/');
    assert((stem + "."@ + other)[0] == stem[0]);
    assert(path_with_extension(path, Seq::empty()) =~= path_join(base, stem));
    if other.len() > 0 {
        assert(path_with_extension(path, other) =~= path_join(base, stem + "."@ + other));
    }
}

proof fn lemma_join_has_no_slash(stem: Seq<char>, ext: Seq<char>)
    requires
        !stem.contains('/'),
        !ext.contains('/'),
    ensures
        !(stem + "."@ + ext).contains('/'),
{
    reveal_strlit(".");
    let name = stem + "."@ + ext;
    assert forall|i: int| 0 <= i < name.len() implies name[i] != '/' by {
        if i < stem.len() {
            assert(name[i] == stem[i]);
        } else if i == stem.len() {
            assert(name[i] == '.');
        } else {
            assert(name[i] == ext[i - stem.len() - 1]);
        }
    }
}

/// A name whose only dot, if it has one, is its first character has no
/// extension: it is its own stem, and gets an extension appended.
pub proof fn law_names_without_extension(base: Seq<char>, name: Seq<char>, ext: Seq<char>)
    requires
        is_plain_name(name),
        forall|i: int| 0 < i < name.len() ==> #[trigger] name[i] != '.',
    ensures
        file_stem(path_join(base, name)) == Some(name),
        extension(path_join(base, name)) is None,
        ext.len() > 0 ==> path_with_extension(path_join(base, name), ext) == path_join(base, name)
            + "."@ + ext,
{
    reveal_strlit("/");
    law_joined_name(base, name);
    lemma_after_last(name, '.');
    lemma_mark_before(name, '.');
    let at = after_last(name, '.');
    if at > 1 {
        assert(name[at - 1] == '.');
    }
    let path = path_join(base, name);
    let lead = if base.len() == 0 || base.last() == '/' {
        base
    } else {
        base + "/"@
    };
    assert(path =~= lead + name);
    lemma_ends_in_name(lead, name);
    assert(path.take(path.len() - name.len()) + name =~= path);
}

/// Slashes, and dots that name the directory itself, after a path change
/// nothing of its last component.
pub proof fn law_trailing_slashes_do_not_matter(path: Seq<char>)
    ensures
        file_name(path + "/"@) == file_name(path),
        file_stem(path + "/"@) == file_stem(path),
        extension(path + "/"@) == extension(path),
        file_name(path + "/."@) == file_name(path),
{
    reveal_strlit("/");
    reveal_strlit("/.");
    reveal_with_fuel(trimmed, 3);
    assert((path + "/"@).drop_last() =~= path);
    assert((path + "/."@).drop_last() =~= path + "/"@);
    assert((path + "/."@)[path.len() as int] == '/');
}

/// The directory above has no name as a file, and neither has the root.
pub proof fn law_directories_above_have_no_name(base: Seq<char>)
    ensures
        file_name(path_join(base, ".."@)) is None,
        file_name("/"@) is None,
        file_name(Seq::empty()) is None,
{
    reveal_strlit("..");
    reveal_strlit("/");
    reveal_with_fuel(trimmed, 2);
    reveal_with_fuel(after_last, 2);
    assert("/"@.drop_last() =~= Seq::<char>::empty());
    assert(Seq::<char>::empty().skip(0) =~= Seq::<char>::empty());
    let s = path_join(base, ".."@);
    let lead = if base.len() == 0 || base.last() == '/' {
        base
    } else {
        base + "/"@
    };
    assert(s =~= lead + ".."@);
    assert(trimmed(s) == s);
    lemma_after_last_append(lead, ".."@, '/');
    assert(s.skip(lead.len() as int) =~= ".."@);
}

/// An absolute path stands for itself, whatever it is joined to; a relative one
/// is joined piece by piece.
pub proof fn law_joining(base: Seq<char>, first: Seq<char>, second: Seq<char>)
    ensures
        path_join(base, "/"@ + first) == "/"@ + first,
        path_join(Seq::empty(), first) == first,
        path_join(path_join(base, first), second) == path_join(base, path_join(first, second)),
{
    reveal_strlit("/");
    assert(("/"@ + first)[0] == '/');
    assert(path_join(Seq::empty(), first) =~= first);
    assert(path_join(path_join(base, first), second) =~= path_join(base, path_join(first, second)));
}

/// A name that is put together of two parts with a dot between them is plain.
pub proof fn lemma_dotted_name_is_plain(stem: Seq<char>, ext: Seq<char>)
    requires
        stem.len() > 0,
        !stem.contains('/'),
        !ext.contains('/'),
        stem + "."@ + ext != ".."@,
    ensures
        is_plain_name(stem + "."@ + ext),
{
    reveal_strlit(".");
    lemma_join_has_no_slash(stem, ext);
    assert((stem + "."@ + ext).len() > 1);
}

/// A name is plain exactly if it has a character, none that is a slash, and one
/// that is not a dot or at least three.
pub proof fn law_plain_names(name: Seq<char>)
    ensures
        is_plain_name(name) <==> {
            &&& name.len() > 0
            &&& forall|i: int| 0 <= i < name.len() ==> #[trigger] name[i] != '/'
            &&& name.len() >= 3 || exists|i: int| 0 <= i < name.len() && #[trigger] name[i] != '.'
        },
{
    reveal_strlit(".");
    reveal_strlit("..");
    if forall|i: int| 0 <= i < name.len() ==> #[trigger] name[i] != '/' {
        assert(!name.contains('/'));
    } else {
        let i = choose|i: int| 0 <= i < name.len() && #[trigger] name[i] == '/';
        assert(name.contains(name[i]));
    }
    if 0 < name.len() < 3 {
        if forall|i: int| 0 <= i < name.len() ==> #[trigger] name[i] == '.' {
            if name.len() == 1 {
                assert(name =~= "."@);
            } else {
                assert(name =~= ".."@);
            }
        } else {
            let i = choose|i: int| 0 <= i < name.len() && #[trigger] name[i] != '.';
            if name == "."@ {
                assert("."@[i] == '.');
            }
            if name == ".."@ {
                assert(".."@[i] == '.');
            }
        }
    }
}

/// A relative path is put behind another with one slash between the two, unless
/// that one ends in a slash or is empty.
pub proof fn law_one_slash_between(base: Seq<char>, rest: Seq<char>)
    requires
        rest.len() == 0 || rest[0] != '/',
    ensures
        base.len() > 0 && base.last() != '/' ==> path_join(base, rest) == base + "/"@ + rest,
        path_join(base + "/"@, rest) == base + "/"@ + rest,
        path_join(Seq::empty(), rest) == rest,
{
    reveal_strlit("/");
    assert((base + "/"@).last() == '/');
    assert(path_join(Seq::empty(), rest) =~= rest);
}

/// A lone dot names no file.
pub proof fn law_the_directory_itself_has_no_name(base: Seq<char>)
    ensures
        file_name("."@) is None,
        file_name(path_join(base, "."@)) == (if base.len() == 0 {
            None
        } else {
            file_name(base)
        }),
{
    reveal_strlit(".");
    reveal_strlit("/");
    reveal_with_fuel(trimmed, 3);
    let none = Seq::<char>::empty();
    assert(!"."@.contains('/'));
    lemma_after_last_append(none, "."@, '/');
    assert(none + "."@ =~= "."@);
    assert("."@.skip(0) =~= "."@);
    let path = path_join(base, "."@);
    if base.len() == 0 {
        assert(path =~= "."@);
    } else {
        assert(path.last() == '.');
        assert(path[path.len() - 2] == '/');
        if base.last() == '/' {
            assert(path.drop_last() =~= base);
        } else {
            assert(path.drop_last() =~= base + "/"@);
            assert(path.drop_last().drop_last() =~= base);
        }
    }
}

} // verus!
