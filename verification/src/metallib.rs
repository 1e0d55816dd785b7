//! Finding the built `mlx.metallib` and placing it beside the executable.

use vstd::prelude::*;

use crate::paths::{find_after_last, join, path_file_name};
use crate::text::{chars_of, joined, same, string_of};

verus! {

// ---------- the order of paths ----------

/// A component of a path, as a mathematical value.
pub enum PathPartView {
    Root,
    Here,
    Up,
    Name(Seq<char>),
}

/// A component of a path.
pub enum PathPart {
    Root,
    Here,
    Up,
    Name(Vec<char>),
}

impl View for PathPart {
    type V = PathPartView;

    open spec fn view(&self) -> PathPartView {
        match self {
            PathPart::Root => PathPartView::Root,
            PathPart::Here => PathPartView::Here,
            PathPart::Up => PathPartView::Up,
            PathPart::Name(name) => PathPartView::Name(name@),
        }
    }
}

/// Components as mathematical values.
pub open spec fn parts_view(parts: Seq<PathPart>) -> Seq<PathPartView> {
    parts.map_values(|p: PathPart| p@)
}

/// The component that the text between two slashes stands for. A single dot
/// counts only at the start of a path.
pub open spec fn part_of(piece: Seq<char>, at_start: bool) -> Option<PathPartView> {
    if piece.len() == 0 {
        None
    } else if piece == "."@ {
        if at_start {
            Some(PathPartView::Here)
        } else {
            None
        }
    } else if piece == ".."@ {
        Some(PathPartView::Up)
    } else {
        Some(PathPartView::Name(piece))
    }
}

/// A component, where there is one, after the components before it.
pub open spec fn with_part(before: Seq<PathPartView>, part: Option<PathPartView>) -> Seq<
    PathPartView,
> {
    match part {
        Some(p) => before.push(p),
        None => before,
    }
}

/// The components of a path.
pub open spec fn components(path: Seq<char>) -> Seq<PathPartView>
    decreases path.len(),
{
    let at = crate::paths::after_last(path, '/');
    if path.len() == 0 {
        seq![]
    } else if !(0 < at <= path.len()) {
        with_part(seq![], part_of(path, true))
    } else if at == 1 {
        with_part(seq![PathPartView::Root], part_of(path.skip(1), false))
    } else {
        with_part(components(path.take(at - 1)), part_of(path.skip(at), false))
    }
}

/// Where the kinds of components stand in the order.
pub open spec fn rank(p: PathPartView) -> int {
    match p {
        PathPartView::Root => 0,
        PathPartView::Here => 1,
        PathPartView::Up => 2,
        PathPartView::Name(_) => 3,
    }
}

/// Whether a text stands before another in the order of their characters.
pub open spec fn text_before(a: Seq<char>, b: Seq<char>) -> bool
    decreases a.len(),
{
    if b.len() == 0 {
        false
    } else if a.len() == 0 {
        true
    } else if a[0] == b[0] {
        text_before(a.skip(1), b.skip(1))
    } else {
        a[0] < b[0]
    }
}

/// Whether a component stands before another.
pub open spec fn part_before(a: PathPartView, b: PathPartView) -> bool {
    match (a, b) {
        (PathPartView::Name(x), PathPartView::Name(y)) => text_before(x, y),
        _ => rank(a) < rank(b),
    }
}

/// Whether components stand before others, compared one by one.
pub open spec fn parts_before(a: Seq<PathPartView>, b: Seq<PathPartView>) -> bool
    decreases a.len(),
{
    if b.len() == 0 {
        false
    } else if a.len() == 0 {
        true
    } else if a[0] == b[0] {
        parts_before(a.skip(1), b.skip(1))
    } else {
        part_before(a[0], b[0])
    }
}

/// Whether a path stands before another.
pub open spec fn path_before(a: Seq<char>, b: Seq<char>) -> bool {
    parts_before(components(a), components(b))
}

proof fn lemma_text_order(a: Seq<char>, b: Seq<char>)
    ensures
        !(text_before(a, b) && text_before(b, a)),
        !text_before(a, b) && !text_before(b, a) ==> a == b,
        a == b ==> !text_before(a, b),
    decreases a.len(),
{
    if a.len() > 0 && b.len() > 0 && a[0] == b[0] {
        lemma_text_order(a.skip(1), b.skip(1));
        if a.skip(1) == b.skip(1) {
            assert forall|i: int| 0 <= i < a.len() implies a[i] == b[i] by {
                if i > 0 {
                    assert(a.skip(1)[i - 1] == b.skip(1)[i - 1]);
                }
            }
            assert(a.len() == b.len()) by {
                assert(a.skip(1).len() == b.skip(1).len());
            }
            assert(a =~= b);
        }
    } else if a.len() == 0 && b.len() == 0 {
        assert(a =~= b);
    }
}

proof fn lemma_text_chain(a: Seq<char>, b: Seq<char>, c: Seq<char>)
    requires
        text_before(a, b),
        text_before(b, c),
    ensures
        text_before(a, c),
    decreases a.len(),
{
    if a.len() > 0 && a[0] == b[0] && b[0] == c[0] {
        lemma_text_chain(a.skip(1), b.skip(1), c.skip(1));
    }
}

proof fn lemma_part_order(a: PathPartView, b: PathPartView)
    ensures
        !(part_before(a, b) && part_before(b, a)),
        !part_before(a, b) && !part_before(b, a) ==> a == b,
        a == b ==> !part_before(a, b),
{
    if a is Name && b is Name {
        lemma_text_order(a->Name_0, b->Name_0);
    }
}

proof fn lemma_part_chain(a: PathPartView, b: PathPartView, c: PathPartView)
    requires
        part_before(a, b),
        part_before(b, c),
    ensures
        part_before(a, c),
{
    if a is Name && b is Name && c is Name {
        lemma_text_chain(a->Name_0, b->Name_0, c->Name_0);
    }
}

proof fn lemma_parts_order(a: Seq<PathPartView>, b: Seq<PathPartView>)
    ensures
        !(parts_before(a, b) && parts_before(b, a)),
        !parts_before(a, b) && !parts_before(b, a) ==> a == b,
        a == b ==> !parts_before(a, b),
    decreases a.len(),
{
    if a.len() > 0 && b.len() > 0 {
        lemma_part_order(a[0], b[0]);
        if a[0] == b[0] {
            lemma_parts_order(a.skip(1), b.skip(1));
            if a.skip(1) == b.skip(1) {
                assert(a =~= seq![a[0]] + a.skip(1));
                assert(b =~= seq![b[0]] + b.skip(1));
            }
        }
    } else if a.len() == 0 && b.len() == 0 {
        assert(a =~= b);
    }
}

proof fn lemma_parts_chain(
    a: Seq<PathPartView>,
    b: Seq<PathPartView>,
    c: Seq<PathPartView>,
)
    requires
        parts_before(a, b),
        parts_before(b, c),
    ensures
        parts_before(a, c),
    decreases a.len(),
{
    if a.len() > 0 {
        if a[0] == b[0] && b[0] == c[0] {
            lemma_parts_chain(a.skip(1), b.skip(1), c.skip(1));
        } else if a[0] != b[0] && b[0] != c[0] {
            lemma_part_chain(a[0], b[0], c[0]);
            lemma_part_order(a[0], c[0]);
        }
    }
}

/// Paths are in a strict order: of two with different components one stands
/// before the other, none stands before itself, and the order carries over.
pub proof fn law_paths_are_ordered(a: Seq<char>, b: Seq<char>, c: Seq<char>)
    ensures
        components(a) != components(b) ==> path_before(a, b) || path_before(b, a),
        !(path_before(a, b) && path_before(b, a)),
        !path_before(a, a),
        path_before(a, b) && path_before(b, c) ==> path_before(a, c),
{
    lemma_parts_order(components(a), components(b));
    lemma_parts_order(components(a), components(a));
    if path_before(a, b) && path_before(b, c) {
        lemma_parts_chain(components(a), components(b), components(c));
    }
}

fn text_is_before(a: &Vec<char>, b: &Vec<char>) -> (r: bool)
    ensures
        r == text_before(a@, b@),
{
    let mut i: usize = 0;
    proof {
        assert(a@.skip(0) =~= a@);
        assert(b@.skip(0) =~= b@);
    }
    while i < a.len() && i < b.len() && a[i] == b[i]
        invariant
            i <= a.len(),
            i <= b.len(),
            text_before(a@, b@) == text_before(a@.skip(i as int), b@.skip(i as int)),
        decreases a.len() - i,
    {
        proof {
            assert(a@.skip(i as int).skip(1) =~= a@.skip(i + 1));
            assert(b@.skip(i as int).skip(1) =~= b@.skip(i + 1));
        }
        i = i + 1;
    }
    if i >= b.len() {
        false
    } else if i >= a.len() {
        true
    } else {
        a[i] < b[i]
    }
}

fn part_rank(p: &PathPart) -> (r: u8)
    ensures
        r == rank(p@),
{
    match p {
        PathPart::Root => 0,
        PathPart::Here => 1,
        PathPart::Up => 2,
        PathPart::Name(_) => 3,
    }
}

fn part_is_before(a: &PathPart, b: &PathPart) -> (r: bool)
    ensures
        r == part_before(a@, b@),
{
    if let (PathPart::Name(x), PathPart::Name(y)) = (a, b) {
        text_is_before(x, y)
    } else {
        part_rank(a) < part_rank(b)
    }
}

fn parts_are_before(a: &Vec<PathPart>, b: &Vec<PathPart>) -> (r: bool)
    ensures
        r == parts_before(parts_view(a@), parts_view(b@)),
{
    let ghost x = parts_view(a@);
    let ghost y = parts_view(b@);
    let mut i: usize = 0;
    proof {
        assert(x.skip(0) =~= x);
        assert(y.skip(0) =~= y);
    }
    while i < a.len() && i < b.len()
        invariant
            i <= a.len(),
            i <= b.len(),
            x == parts_view(a@),
            y == parts_view(b@),
            parts_before(x, y) == parts_before(x.skip(i as int), y.skip(i as int)),
        decreases a.len() - i,
    {
        proof {
            lemma_part_order(x[i as int], y[i as int]);
            assert(x.skip(i as int).skip(1) =~= x.skip(i + 1));
            assert(y.skip(i as int).skip(1) =~= y.skip(i + 1));
        }
        if part_is_before(&a[i], &b[i]) {
            return true;
        }
        if part_is_before(&b[i], &a[i]) {
            return false;
        }
        i = i + 1;
    }
    i < b.len()
}

fn read_part(piece: Vec<char>, at_start: bool) -> (r: Option<PathPart>)
    ensures
        match r {
            Some(p) => part_of(piece@, at_start) == Some(p@),
            None => part_of(piece@, at_start) is None,
        },
{
    let text: String = string_of(&piece, 0, piece.len());
    proof {
        assert(piece@.subrange(0, piece@.len() as int) =~= piece@);
        reveal_strlit(".");
        reveal_strlit("..");
    }
    if piece.len() == 0 {
        None
    } else if same(text.as_str(), ".") {
        if at_start {
            Some(PathPart::Here)
        } else {
            None
        }
    } else if same(text.as_str(), "..") {
        Some(PathPart::Up)
    } else {
        Some(PathPart::Name(piece))
    }
}

fn slice_of(chars: &Vec<char>, from: usize, to: usize) -> (r: Vec<char>)
    requires
        from <= to <= chars.len(),
    ensures
        r@ == chars@.subrange(from as int, to as int),
{
    let text: String = string_of(chars, from, to);
    chars_of(text.as_str())
}

/// The components of the first `to` characters.
fn read_components(chars: &Vec<char>, to: usize) -> (r: Vec<PathPart>)
    requires
        to <= chars.len(),
    ensures
        parts_view(r@) == components(chars@.take(to as int)),
    decreases to,
{
    let ghost path = chars@.take(to as int);
    let mut parts: Vec<PathPart> = Vec::new();
    proof {
        assert(parts_view(parts@) =~= seq![]);
        assert(chars@.subrange(0, to as int) =~= path);
    }
    if to == 0 {
        return parts;
    }
    let at: usize = find_after_last(chars, 0, to, '/');
    let part: Option<PathPart> = if at == 0 {
        read_part(slice_of(chars, 0, to), true)
    } else {
        if at == 1 {
            parts.push(PathPart::Root);
            proof {
                assert(parts_view(parts@) =~= seq![PathPartView::Root]);
            }
        } else {
            parts = read_components(chars, at - 1);
            proof {
                assert(path.take(at - 1) =~= chars@.take(at - 1));
            }
        }
        proof {
            assert(path.skip(at as int) =~= chars@.subrange(at as int, to as int));
        }
        read_part(slice_of(chars, at, to), false)
    };
    if let Some(p) = part {
        let ghost before = parts_view(parts@);
        parts.push(p);
        proof {
            assert(parts_view(parts@) =~= before.push(p@));
        }
    }
    parts
}

/// Whether a path stands before another, compared component by component.
pub fn path_is_before(a: &str, b: &str) -> (r: bool)
    ensures
        r == path_before(a@, b@),
{
    let x: Vec<char> = chars_of(a);
    let y: Vec<char> = chars_of(b);
    proof {
        assert(x@.take(x@.len() as int) =~= a@);
        assert(y@.take(y@.len() as int) =~= b@);
    }
    parts_are_before(&read_components(&x, x.len()), &read_components(&y, y.len()))
}

// ---------- the search ----------

/// Where the build puts the libraries of a profile.
pub open spec fn build_path(manifest_dir: Seq<char>, debug: bool) -> Seq<char> {
    let profile = if debug {
        "debug"@
    } else {
        "release"@
    };
    crate::paths::path_join(
        crate::paths::path_join(crate::paths::path_join(manifest_dir, "target"@), profile),
        "build"@,
    )
}

/// Where the build puts the libraries of a profile.
pub fn build_dir(manifest_dir: &str, debug: bool) -> (r: String)
    ensures
        r@ == build_path(manifest_dir@, debug),
{
    let profile: &str = if debug {
        "debug"
    } else {
        "release"
    };
    let target: String = join(manifest_dir, "target");
    let dir: String = join(target.as_str(), profile);
    join(dir.as_str(), "build")
}

/// Whether a path names the library.
pub open spec fn is_metallib_path(path: Seq<char>) -> bool {
    crate::paths::file_name(path) == Some("mlx.metallib"@)
}

/// Whether a path names the library.
pub fn is_metallib(path: &str) -> (r: bool)
    ensures
        r == is_metallib_path(path@),
{
    match path_file_name(path) {
        Some(name) => same(name.as_str(), "mlx.metallib"),
        None => false,
    }
}

/// A walk through directories: those still to read, and the libraries found.
pub struct Search {
    pub pending: Vec<String>,
    pub candidates: Vec<String>,
}

impl Search {
    /// A walk that starts at `dir`.
    pub fn new(dir: &str) -> (r: Self)
        ensures
            crate::text::texts_view(r.pending@) == seq![dir@],
            r.candidates@.len() == 0,
    {
        let mut pending: Vec<String> = Vec::new();
        pending.push(dir.to_owned());
        proof {
            assert(crate::text::texts_view(pending@) =~= seq![dir@]);
        }
        Search { pending, candidates: Vec::new() }
    }

    /// The directory to read next.
    pub fn next_dir(&mut self) -> (r: Option<String>)
        ensures
            final(self).candidates == old(self).candidates,
            match r {
                Some(dir) => crate::text::texts_view(old(self).pending@) == crate::text::texts_view(
                    final(self).pending@,
                ).push(dir@),
                None => old(self).pending@.len() == 0 && final(self).pending@ == old(self).pending@,
            },
    {
        let ghost before = self.pending@;
        match self.pending.pop() {
            Some(dir) => {
                proof {
                    assert(before == self.pending@.push(dir));
                    assert(crate::text::texts_view(before) =~= crate::text::texts_view(self.pending@).push(dir@));
                }
                Some(dir)
            },
            None => None,
        }
    }

    /// Takes an entry of a directory: a directory is read later, a file counts
    /// where it is the library.
    pub fn collect_mlx_metallibs(&mut self, path: String, is_dir: bool)
        ensures
            crate::text::texts_view(final(self).pending@) == (if is_dir {
                crate::text::texts_view(old(self).pending@).push(path@)
            } else {
                crate::text::texts_view(old(self).pending@)
            }),
            crate::text::texts_view(final(self).candidates@) == (if !is_dir && is_metallib_path(path@) {
                crate::text::texts_view(old(self).candidates@).push(path@)
            } else {
                crate::text::texts_view(old(self).candidates@)
            }),
    {
        let ghost entry = path@;
        if is_dir {
            self.pending.push(path);
            proof {
                assert(crate::text::texts_view(self.pending@) =~= crate::text::texts_view(old(self).pending@).push(entry));
            }
        } else if is_metallib(path.as_str()) {
            self.candidates.push(path);
            proof {
                assert(crate::text::texts_view(self.candidates@) =~= crate::text::texts_view(old(self).candidates@).push(
                    entry,
                ));
            }
        }
    }
}

/// Whether the candidate at `k` comes first in the order of paths; of equal
/// ones, the one that was found first.
pub open spec fn is_first(candidates: Seq<Seq<char>>, k: int) -> bool {
    &&& 0 <= k < candidates.len()
    &&& forall|j: int|
        0 <= j < candidates.len() ==> !path_before(#[trigger] candidates[j], candidates[k])
    &&& forall|j: int|
        0 <= j < k ==> path_before(candidates[k], #[trigger] candidates[j])
}

/// The library to use: the candidate that comes first in the order of paths.
pub fn find_built_mlx_metallib(candidates: &Vec<String>, build_dir: &str) -> (r: Result<
    String,
    String,
>)
    ensures
        match r {
            Ok(path) => exists|k: int|
                #[trigger] is_first(crate::text::texts_view(candidates@), k) && path@ == candidates@[k]@,
            Err(message) => candidates@.len() == 0 && message@
                == "could not find mlx.metallib under "@ + build_dir@,
        },
{
    if candidates.len() == 0 {
        return Err(joined("could not find mlx.metallib under ", build_dir));
    }
    let ghost all = crate::text::texts_view(candidates@);
    let mut best: usize = 0;
    let mut i: usize = 1;
    proof {
        law_paths_are_ordered(all[0], all[0], all[0]);
    }
    while i < candidates.len()
        invariant
            0 <= best < i <= candidates.len(),
            all == crate::text::texts_view(candidates@),
            forall|j: int| 0 <= j < i ==> !path_before(#[trigger] all[j], all[best as int]),
            forall|j: int| 0 <= j < best ==> path_before(all[best as int], #[trigger] all[j]),
        decreases candidates.len() - i,
    {
        if path_is_before(candidates[i].as_str(), candidates[best].as_str()) {
            proof {
                let x = all[i as int];
                let b = all[best as int];
                assert forall|j: int| 0 <= j < i + 1 implies !path_before(#[trigger] all[j], x) by {
                    law_paths_are_ordered(all[j], x, b);
                }
                assert forall|j: int| 0 <= j < i implies path_before(x, #[trigger] all[j]) by {
                    lemma_parts_order(components(all[j]), components(b));
                    law_paths_are_ordered(x, b, all[j]);
                }
            }
            best = i;
        }
        i = i + 1;
    }
    proof {
        assert(is_first(all, best as int));
    }
    Ok(candidates[best].clone())
}

/// What is to be copied, and where to.
pub struct CopyPlan {
    pub from: String,
    pub to: String,
}

/// Where the library must lie: beside the executable.
pub fn metallib_path(exe_dir: &str) -> (r: String)
    ensures
        r@ == crate::paths::path_join(exe_dir@, "mlx.metallib"@),
{
    join(exe_dir, "mlx.metallib")
}

/// Sees to it that the library lies beside the executable: nothing is done
/// where it does, else the first candidate is copied there.
pub fn ensure_mlx_metallib_colocated(
    exe_dir: &str,
    output_exists: bool,
    candidates: &Vec<String>,
    build_dir: &str,
) -> (r: Result<Option<CopyPlan>, String>)
    ensures
        match r {
            Ok(None) => output_exists,
            Ok(Some(plan)) => {
                &&& !output_exists
                &&& plan.to@ == crate::paths::path_join(exe_dir@, "mlx.metallib"@)
                &&& exists|k: int|
                    #[trigger] is_first(crate::text::texts_view(candidates@), k) && plan.from@
                        == candidates@[k]@
            },
            Err(message) => !output_exists && candidates@.len() == 0 && message@
                == "could not find mlx.metallib under "@ + build_dir@,
        },
{
    if output_exists {
        return Ok(None);
    }
    match find_built_mlx_metallib(candidates, build_dir) {
        Ok(from) => Ok(Some(CopyPlan { from, to: metallib_path(exe_dir) })),
        Err(message) => Err(message),
    }
}

/// Which candidate is used does not depend on the order in which candidates
/// were found: two that both come first have the same components.
pub proof fn law_the_choice_is_unique(candidates: Seq<Seq<char>>, k: int, l: int)
    requires
        is_first(candidates, k),
        0 <= l < candidates.len(),
        forall|j: int|
            0 <= j < candidates.len() ==> !path_before(#[trigger] candidates[j], candidates[l]),
    ensures
        components(candidates[k]) == components(candidates[l]),
{
    law_paths_are_ordered(candidates[k], candidates[l], candidates[k]);
}

/// Two texts stand in the order of the first character in which they differ,
/// and a text stands before any longer one that begins with it.
pub proof fn law_texts_are_ordered_by_their_first_difference(
    start: Seq<char>,
    x: char,
    y: char,
    a: Seq<char>,
    b: Seq<char>,
)
    ensures
        text_before(start + seq![x] + a, start + seq![y] + b) <==> (x as int) < (y as int) || (x == y
            && text_before(a, b)),
        text_before(start, start + seq![x] + a),
        !text_before(start + seq![x] + a, start),
    decreases start.len(),
{
    let s = start + seq![x] + a;
    let t = start + seq![y] + b;
    if start.len() > 0 {
        let rest = start.skip(1);
        law_texts_are_ordered_by_their_first_difference(rest, x, y, a, b);
        assert(s.skip(1) =~= rest + seq![x] + a);
        assert(t.skip(1) =~= rest + seq![y] + b);
        assert(s[0] == start[0] && t[0] == start[0]);
    } else {
        assert(s[0] == x && t[0] == y);
        assert(s.skip(1) =~= a);
        assert(t.skip(1) =~= b);
    }
}

/// The root stands before a leading dot, that before two dots, and those before
/// every name; names stand in the order of their texts.
pub proof fn law_kinds_of_components_are_ordered(x: Seq<char>, y: Seq<char>)
    ensures
        part_before(PathPartView::Root, PathPartView::Here),
        part_before(PathPartView::Here, PathPartView::Up),
        part_before(PathPartView::Up, PathPartView::Name(x)),
        part_before(PathPartView::Root, PathPartView::Name(x)),
        part_before(PathPartView::Name(x), PathPartView::Name(y)) <==> text_before(x, y),
        !part_before(PathPartView::Name(x), PathPartView::Up),
{
}

/// Two lists of components stand in the order of the first component in which
/// they differ, and a list stands before any longer one that begins with it.
pub proof fn law_components_are_ordered_by_their_first_difference(
    start: Seq<PathPartView>,
    x: PathPartView,
    y: PathPartView,
    a: Seq<PathPartView>,
    b: Seq<PathPartView>,
)
    ensures
        x != y ==> (parts_before(start + seq![x] + a, start + seq![y] + b) <==> part_before(x, y)),
        x == y ==> (parts_before(start + seq![x] + a, start + seq![y] + b) <==> parts_before(a, b)),
        parts_before(start, start + seq![x] + a),
        !parts_before(start + seq![x] + a, start),
    decreases start.len(),
{
    let s = start + seq![x] + a;
    let t = start + seq![y] + b;
    if start.len() > 0 {
        let rest = start.skip(1);
        law_components_are_ordered_by_their_first_difference(rest, x, y, a, b);
        assert(s.skip(1) =~= rest + seq![x] + a);
        assert(t.skip(1) =~= rest + seq![y] + b);
        assert(s[0] == start[0] && t[0] == start[0]);
    } else {
        assert(s[0] == x && t[0] == y);
        assert(s.skip(1) =~= a);
        assert(t.skip(1) =~= b);
    }
}

/// Joining a name to a path adds one component, that name. Slashes, and dots
/// that name the directory itself, add none; two dots add a step up.
pub proof fn law_joining_adds_a_component(base: Seq<char>, name: Seq<char>)
    requires
        crate::paths::is_plain_name(name),
    ensures
        components(crate::paths::path_join(base, name)) == components(base).push(
            PathPartView::Name(name),
        ),
        base.len() > 0 ==> components(base + "/"@) == components(base),
        base.len() > 0 ==> components(base + "/."@) == components(base),
        base.len() > 0 ==> components(base + "/.."@) == components(base).push(PathPartView::Up),
        components(Seq::empty()) == Seq::<PathPartView>::empty(),
        components("/"@) == seq![PathPartView::Root],
        components("."@) == seq![PathPartView::Here],
        components(".."@) == seq![PathPartView::Up],
{
    reveal_strlit("/");
    reveal_strlit("/.");
    reveal_strlit("/..");
    reveal_strlit(".");
    reveal_strlit("..");
    crate::paths::law_joined_name(base, name);
    let none = Seq::<char>::empty();
    assert(!none.contains('/'));
    assert(!"."@.contains('/'));
    assert(!".."@.contains('/'));
    assert(none + name =~= name);
    assert(none + "."@ =~= "."@);
    assert(none + ".."@ =~= ".."@);
    crate::paths::lemma_after_last_append(none, name, '/');
    crate::paths::lemma_after_last_append(none, "."@, '/');
    crate::paths::lemma_after_last_append(none, ".."@, '/');
    assert("/"@ + none =~= "/"@);
    lemma_slash_and_piece(none, none);
    lemma_slash_and_piece(none, name);
    assert(none + "/"@ + none =~= "/"@);
    assert(none + "/"@ + name =~= "/"@ + name);
    assert(components(name) =~= seq![PathPartView::Name(name)]);
    assert(components("."@) =~= seq![PathPartView::Here]);
    assert(components(".."@) =~= seq![PathPartView::Up]);
    if base.len() > 0 {
        lemma_slash_and_piece(base, none);
        lemma_slash_and_piece(base, name);
        lemma_slash_and_piece(base, "."@);
        lemma_slash_and_piece(base, ".."@);
        assert(base + "/"@ + none =~= base + "/"@);
        assert(base + "/"@ + "."@ =~= base + "/."@);
        assert(base + "/"@ + ".."@ =~= base + "/.."@);
        if base.last() == '/' {
            let front = base.drop_last();
            lemma_slash_and_piece(front, none);
            lemma_slash_and_piece(front, name);
            assert(front + "/"@ + none =~= base);
            assert(front + "/"@ + name =~= base + name);
        }
    }
    assert(components(crate::paths::path_join(base, name)) =~= components(base).push(
        PathPartView::Name(name),
    ));
}

/// What a slash and a piece without slashes add to the components of a path.
proof fn lemma_slash_and_piece(base: Seq<char>, piece: Seq<char>)
    requires
        !piece.contains('/'),
    ensures
        components(base + "/"@ + piece) == with_part(
            if base.len() == 0 {
                seq![PathPartView::Root]
            } else {
                components(base)
            },
            part_of(piece, false),
        ),
{
    reveal_strlit("/");
    let lead = base + "/"@;
    let path = lead + piece;
    assert(lead.last() == '/');
    crate::paths::lemma_after_last_append(lead, piece, '/');
    let at = lead.len() as int;
    assert(path.take(at - 1) =~= base);
    assert(path.skip(at) =~= piece);
}

/// Of two files of one directory, the one whose name stands before the other's
/// stands first, and what lies below a directory stands after it.
pub proof fn law_siblings_are_ordered_by_name(base: Seq<char>, x: Seq<char>, y: Seq<char>)
    requires
        crate::paths::is_plain_name(x),
        crate::paths::is_plain_name(y),
    ensures
        path_before(crate::paths::path_join(base, x), crate::paths::path_join(base, y))
            <==> text_before(x, y),
        path_before(base, crate::paths::path_join(base, x)),
{
    law_joining_adds_a_component(base, x);
    law_joining_adds_a_component(base, y);
    let start = components(base);
    let none = Seq::<PathPartView>::empty();
    let a = PathPartView::Name(x);
    let b = PathPartView::Name(y);
    law_components_are_ordered_by_their_first_difference(start, a, b, none, none);
    assert(start + seq![a] + none =~= start.push(a));
    assert(start + seq![b] + none =~= start.push(b));
    lemma_text_order(x, y);
}

/// A candidate that stands before all others is the one that is used.
pub proof fn law_the_least_candidate_is_used(candidates: Seq<Seq<char>>, k: int, least: int)
    requires
        is_first(candidates, k),
        0 <= least < candidates.len(),
        forall|j: int|
            0 <= j < candidates.len() && j != least ==> path_before(
                candidates[least],
                #[trigger] candidates[j],
            ),
    ensures
        k == least,
        0 <= k < candidates.len(),
{
    if k != least {
        assert(path_before(candidates[least], candidates[k]));
        assert(!path_before(candidates[least], candidates[k]));
    }
}

/// A path names the library exactly if its last component is `mlx.metallib`, in
/// whatever directory.
pub proof fn law_libraries_are_known_by_their_name(dir: Seq<char>, name: Seq<char>)
    requires
        crate::paths::is_plain_name(name),
    ensures
        is_metallib_path(crate::paths::path_join(dir, name)) <==> name == "mlx.metallib"@,
{
    crate::paths::law_joined_name(dir, name);
}

/// Libraries are built below the project, each profile in a directory of its
/// own.
pub proof fn law_build_directories(manifest_dir: Seq<char>)
    requires
        manifest_dir.len() > 0,
        manifest_dir.last() != '/',
    ensures
        build_path(manifest_dir, true) == manifest_dir + "/target/debug/build"@,
        build_path(manifest_dir, false) == manifest_dir + "/target/release/build"@,
{
    reveal_strlit("/");
    reveal_strlit("target");
    reveal_strlit("debug");
    reveal_strlit("release");
    reveal_strlit("build");
    reveal_strlit("/target/debug/build");
    reveal_strlit("/target/release/build");
    assert(build_path(manifest_dir, true) =~= manifest_dir + "/target/debug/build"@);
    assert(build_path(manifest_dir, false) =~= manifest_dir + "/target/release/build"@);
}

/// Of candidates with the same components the one that was found first is used.
pub proof fn law_the_earliest_of_equals_is_used(candidates: Seq<Seq<char>>, k: int, j: int)
    requires
        is_first(candidates, k),
        0 <= j < candidates.len(),
        components(candidates[j]) == components(candidates[k]),
    ensures
        k <= j,
{
    law_paths_are_ordered(candidates[k], candidates[j], candidates[k]);
    if j < k {
        assert(path_before(candidates[k], candidates[j]));
        assert(path_before(candidates[k], candidates[k]));
        assert(!path_before(candidates[k], candidates[k]));
    }
}

} // verus!
