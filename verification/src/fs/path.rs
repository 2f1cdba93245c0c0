//! Path algebra of the virtual filesystem: normalisation, parents and
//! direct children.
use vstd::prelude::*;
use vstd::string::*;
use crate::text::{chars_of, concat2, contains, has_prefix, has_substring, is_white_space, joined, join_text, owned, same_text, starts_with, trim_end_index, trim_start_index, trim_text, trimmed};

verus! {

/// The pieces of `s` between `/` separators, empty pieces included, as
/// `str::split('/')` yields them.
pub open spec fn pieces(s: Seq<char>) -> Seq<Seq<char>>
    decreases s.len(),
{
    if s.len() == 0 {
        seq![Seq::empty()]
    } else {
        let before = pieces(s.drop_last());
        if s.last() == '/' {
            before.push(Seq::empty())
        } else {
            before.update(before.len() - 1, before.last().push(s.last()))
        }
    }
}

/// The text `.`.
pub open spec fn dot() -> Seq<char> {
    seq!['.']
}

/// The text `..`.
pub open spec fn dot_dot() -> Seq<char> {
    seq!['.', '.']
}

/// The segment stack after reading one piece: empty pieces and `.` are
/// skipped, `..` drops the last segment (if any), any other piece is pushed.
pub open spec fn resolve_step(stack: Seq<Seq<char>>, piece: Seq<char>) -> Seq<Seq<char>> {
    if piece.len() == 0 || piece == dot() {
        stack
    } else if piece == dot_dot() {
        if stack.len() > 0 { stack.drop_last() } else { stack }
    } else {
        stack.push(piece)
    }
}

/// The segments that remain after reading every piece in order.
pub open spec fn resolved(ps: Seq<Seq<char>>) -> Seq<Seq<char>>
    decreases ps.len(),
{
    if ps.len() == 0 {
        Seq::empty()
    } else {
        resolve_step(resolved(ps.drop_last()), ps.last())
    }
}

/// The root path `/`.
pub open spec fn root() -> Seq<char> {
    seq!['/']
}

/// The canonical form of a path: trimmed of white space, `.` and empty
/// segments dropped, `..` resolved, written as `/` followed by the
/// segments joined with `/`.
pub open spec fn normalized(path: Seq<char>) -> Seq<char> {
    let t = trimmed(path);
    if t.len() == 0 || t == root() {
        root()
    } else {
        root() + joined(resolved(pieces(t)), root())
    }
}

/// Index of the last `/` in `s`, or -1 when there is none.
pub open spec fn last_slash(s: Seq<char>) -> int
    decreases s.len(),
{
    if s.len() == 0 {
        -1
    } else if s.last() == '/' {
        s.len() - 1
    } else {
        last_slash(s.drop_last())
    }
}

/// The parent of the normalised form of `path`: none for the root, the root
/// for a top-level path, otherwise everything before the last `/`.
pub open spec fn parent_of(path: Seq<char>) -> Option<Seq<char>> {
    let p = normalized(path);
    if p == root() {
        None
    } else if last_slash(p) <= 0 {
        Some(root())
    } else {
        Some(p.subrange(0, last_slash(p)))
    }
}

/// The name of `full` as a direct child of `parent`, both already in
/// canonical form: what follows `parent` and one `/`, when that holds no
/// further `/`.
pub open spec fn child_of(parent: Seq<char>, full: Seq<char>) -> Option<Seq<char>> {
    if full == parent {
        None
    } else if parent == root() {
        if starts_with(full, root()) && !contains(full.drop_first(), root()) {
            Some(full.drop_first())
        } else {
            None
        }
    } else if starts_with(full, parent + root()) && !contains(full.subrange(parent.len() + 1int, full.len() as int), root()) {
        Some(full.subrange(parent.len() + 1int, full.len() as int))
    } else {
        None
    }
}

/// The direct-child name of `full` under `parent`, after normalising both.
pub open spec fn child_name_of(parent: Seq<char>, full: Seq<char>) -> Option<Seq<char>> {
    child_of(normalized(parent), normalized(full))
}

/// The last segment of `s`: what follows its last `/`.
pub open spec fn last_segment(s: Seq<char>) -> Seq<char> {
    s.subrange(last_slash(s) + 1, s.len() as int)
}

/// Every canonical path is absolute: it begins with `/`.
pub proof fn normalized_is_rooted(path: Seq<char>)
    ensures
        normalized(path).len() >= 1,
        normalized(path)[0] == '/',
{
    let t = trimmed(path);
    if !(t.len() == 0 || t == root()) {
        assert((root() + joined(resolved(pieces(t)), root()))[0] == '/');
    }
}

/// A direct child's name holds no `/`, and the child's path is its parent's
/// path, a `/` (unless the parent is the root) and the name.
pub proof fn child_extends_parent(parent: Seq<char>, full: Seq<char>, c: Seq<char>)
    requires
        child_of(parent, full) == Some(c),
    ensures
        !contains(c, root()),
        parent == root() ==> full == root() + c,
        parent != root() ==> full == parent + root() + c,
{
    if parent == root() {
        assert(full =~= root() + full.drop_first());
    } else {
        assert(full.subrange(0, parent.len() + 1int) =~= parent + root());
        assert(full =~= parent + root() + full.subrange(parent.len() + 1int, full.len() as int));
    }
}

proof fn last_slash_bounds(s: Seq<char>)
    ensures
        -1 <= last_slash(s) < s.len(),
        last_slash(s) >= 0 ==> s[last_slash(s)] == '/',
        forall|j: int| last_slash(s) < j < s.len() ==> s[j] != '/',
    decreases s.len(),
{
    if s.len() > 0 && s.last() != '/' {
        last_slash_bounds(s.drop_last());
        assert forall|j: int| last_slash(s) < j < s.len() implies s[j] != '/' by {
            if j < s.len() - 1 {
                assert(s[j] == s.drop_last()[j]);
            }
        }
    }
}

proof fn pieces_not_empty(s: Seq<char>)
    ensures
        pieces(s).len() >= 1,
    decreases s.len(),
{
    if s.len() > 0 {
        pieces_not_empty(s.drop_last());
    }
}

/// The text of a piece `s[from..to]`, and the stack after reading it.
fn read_piece(s: &str, from: usize, to: usize, stack: &mut Vec<String>)
    requires
        from <= to <= s@.len(),
    ensures
        final(stack)@.map_values(|p: String| p@) == resolve_step(old(stack)@.map_values(|p: String| p@), s@.subrange(from as int, to as int)),
{
    let piece = s.substring_char(from, to);
    let ghost before = old(stack)@.map_values(|p: String| p@);
    proof {
        reveal_strlit(".");
        reveal_strlit("..");
        assert("."@ =~= dot());
        assert(".."@ =~= dot_dot());
    }
    if from == to || same_text(piece, ".") {
        proof {
            assert(stack@.map_values(|p: String| p@) =~= before);
        }
    } else if same_text(piece, "..") {
        if stack.len() > 0 {
            stack.pop();
            proof {
                assert(stack@.map_values(|p: String| p@) =~= before.drop_last());
            }
        } else {
            proof {
                assert(stack@.map_values(|p: String| p@) =~= before);
            }
        }
    } else {
        stack.push(owned(piece));
        proof {
            assert(stack@.map_values(|p: String| p@) =~= before.push(s@.subrange(from as int, to as int)));
        }
    }
}

proof fn pieces_step(s: Seq<char>, i: int, start: int)
    requires
        0 <= start <= i < s.len(),
        pieces(s.subrange(0, i)).last() == s.subrange(start, i),
    ensures
        s[i] == '/' ==> pieces(s.subrange(0, i + 1)) == pieces(s.subrange(0, i)).push(Seq::empty()),
        s[i] == '/' ==> pieces(s.subrange(0, i + 1)).last() == s.subrange(i + 1, i + 1),
        s[i] != '/' ==> pieces(s.subrange(0, i + 1)).drop_last() == pieces(s.subrange(0, i)).drop_last(),
        s[i] != '/' ==> pieces(s.subrange(0, i + 1)).last() == s.subrange(start, i + 1),
{
    let t = s.subrange(0, i + 1);
    assert(t.drop_last() =~= s.subrange(0, i));
    assert(t.last() == s[i]);
    pieces_not_empty(s.subrange(0, i));
    if s[i] == '/' {
        assert(s.subrange(i + 1, i + 1) =~= Seq::<char>::empty());
    } else {
        let before = pieces(s.subrange(0, i));
        assert(pieces(t).drop_last() =~= before.drop_last());
        assert(s.subrange(start, i + 1) =~= s.subrange(start, i).push(s[i]));
    }
}

/// The segments of the trimmed text `s` after resolution.
fn resolve_segments(s: &str) -> (r: Vec<String>)
    ensures
        r@.map_values(|p: String| p@) == resolved(pieces(s@)),
{
    let cs = chars_of(s);
    let n = cs.len();
    let mut stack: Vec<String> = Vec::new();
    let mut start: usize = 0;
    let mut i: usize = 0;
    proof {
        assert(s@.subrange(0, 0) =~= Seq::<char>::empty());
        assert(s@.subrange(0, 0) =~= s@.subrange(0, 0));
    }
    while i < n
        invariant
            cs@ == s@,
            n == s@.len(),
            start <= i <= n,
            pieces(s@.subrange(0, i as int)).last() == s@.subrange(start as int, i as int),
            stack@.map_values(|p: String| p@) == resolved(pieces(s@.subrange(0, i as int)).drop_last()),
        decreases n - i,
    {
        proof {
            pieces_step(s@, i as int, start as int);
        }
        if cs[i] == '/' {
            proof {
                pieces_not_empty(s@.subrange(0, i as int));
                let ps = pieces(s@.subrange(0, i as int));
                assert(ps.drop_last().push(ps.last()) =~= ps);
                assert(resolved(ps) == resolve_step(resolved(ps.drop_last()), ps.last()));
                assert(pieces(s@.subrange(0, i + 1)).drop_last() =~= ps);
            }
            read_piece(s, start, i, &mut stack);
            start = i + 1;
        }
        i = i + 1;
    }
    proof {
        assert(s@.subrange(0, n as int) =~= s@);
        pieces_not_empty(s@);
        let ps = pieces(s@);
        assert(ps.drop_last().push(ps.last()) =~= ps);
    }
    read_piece(s, start, n, &mut stack);
    stack
}

/// The canonical form of `path`.
pub fn normalize(path: &str) -> (r: String)
    ensures
        r@ == normalized(path@),
{
    let t = trim_text(path);
    proof {
        reveal_strlit("/");
        assert("/"@ =~= root());
    }
    if t.as_str().is_empty() || same_text(t.as_str(), "/") {
        return owned("/");
    }
    let segments = resolve_segments(t.as_str());
    let body = join_text(&segments, "/");
    concat2("/", body.as_str())
}

/// Index of the last `/` in `s`, if any.
fn rfind_slash(s: &Vec<char>) -> (r: Option<usize>)
    ensures
        r matches Some(i) ==> last_slash(s@) == i,
        r is None ==> last_slash(s@) == -1,
{
    let mut i: usize = s.len();
    proof {
        assert(s@.subrange(0, s@.len() as int) =~= s@);
    }
    while i > 0
        invariant
            i <= s@.len(),
            last_slash(s@) == last_slash(s@.subrange(0, i as int)),
        decreases i,
    {
        let ghost t = s@.subrange(0, i as int);
        proof {
            assert(t.drop_last() =~= s@.subrange(0, i - 1));
            assert(t.last() == s@[i - 1]);
        }
        if s[i - 1] == '/' {
            return Some(i - 1);
        }
        i = i - 1;
    }
    None
}

/// The parent directory of `path` (after normalising it), or `None` for the
/// root.
pub fn parent_path(path: &str) -> (r: Option<String>)
    ensures
        r matches Some(p) ==> parent_of(path@) == Some(p@),
        r is None ==> parent_of(path@) is None,
{
    let p = normalize(path);
    proof {
        reveal_strlit("/");
        assert("/"@ =~= root());
    }
    if same_text(p.as_str(), "/") {
        return None;
    }
    let cs = chars_of(p.as_str());
    let idx: usize = match rfind_slash(&cs) {
        Some(i) => i,
        None => 0,
    };
    proof {
        last_slash_bounds(p@);
    }
    if idx == 0 {
        Some(owned("/"))
    } else {
        Some(owned(p.as_str().substring_char(0, idx)))
    }
}

/// Whether `s` holds a `/`.
fn has_slash(s: &str) -> (r: bool)
    ensures
        r == contains(s@, root()),
{
    proof {
        reveal_strlit("/");
        assert("/"@ =~= root());
    }
    has_substring(s, "/")
}

/// The name of `full` as a direct child of `parent`, after normalising both.
pub fn child_name(parent: &str, full: &str) -> (r: Option<String>)
    ensures
        r matches Some(c) ==> child_name_of(parent@, full@) == Some(c@),
        r is None ==> child_name_of(parent@, full@) is None,
{
    let pa = normalize(parent);
    let fu = normalize(full);
    child_name_normalized(pa.as_str(), fu.as_str())
}

/// The name of `full` as a direct child of `parent`, both in canonical form.
pub fn child_name_normalized(pa: &str, fu: &str) -> (r: Option<String>)
    ensures
        r matches Some(c) ==> child_of(pa@, fu@) == Some(c@),
        r is None ==> child_of(pa@, fu@) is None,
{
    proof {
        reveal_strlit("/");
        assert("/"@ =~= root());
    }
    if same_text(fu, pa) {
        return None;
    }
    let n = fu.unicode_len();
    if same_text(pa, "/") {
        if has_prefix(fu, "/") {
            let rest = fu.substring_char(1, n);
            proof {
                assert(rest@ =~= fu@.drop_first());
            }
            if has_slash(rest) {
                return None;
            }
            return Some(owned(rest));
        }
        return None;
    }
    let with_slash = concat2(pa, "/");
    if !has_prefix(fu, with_slash.as_str()) {
        return None;
    }
    let from = pa.unicode_len() + 1;
    let rest = fu.substring_char(from, n);
    if has_slash(rest) {
        return None;
    }
    Some(owned(rest))
}

/// The last segment of `s`: what follows its last `/` (all of `s` when it
/// holds none).
pub fn last_segment_of(s: &str) -> (r: String)
    ensures
        r@ == last_segment(s@),
{
    let cs = chars_of(s);
    proof {
        last_slash_bounds(s@);
    }
    let from: usize = match rfind_slash(&cs) {
        Some(i) => i + 1,
        None => 0,
    };
    owned(s.substring_char(from, cs.len()))
}

/// A segment of a canonical path: not empty, not `.` or `..`, and free of
/// `/`.
pub open spec fn clean_segment(s: Seq<char>) -> bool {
    &&& s.len() > 0
    &&& s != dot()
    &&& s != dot_dot()
    &&& forall|j: int| 0 <= j < s.len() ==> s[j] != '/'
}

/// Every piece of `s` is free of `/`.
proof fn pieces_slash_free(s: Seq<char>)
    ensures
        forall|i: int, j: int| 0 <= i < pieces(s).len() && 0 <= j < pieces(s)[i].len() ==> #[trigger] pieces(s)[i][j] != '/',
    decreases s.len(),
{
    if s.len() > 0 {
        pieces_slash_free(s.drop_last());
        pieces_not_empty(s.drop_last());
        let before = pieces(s.drop_last());
        if s.last() != '/' {
            let last = before.last().push(s.last());
            assert forall|i: int, j: int| 0 <= i < pieces(s).len() && 0 <= j < pieces(s)[i].len() implies #[trigger] pieces(s)[i][j] != '/' by {
                if i == before.len() - 1 {
                    if j < before.last().len() {
                        assert(pieces(s)[i][j] == before[i][j]);
                    }
                } else {
                    assert(pieces(s)[i] == before[i]);
                }
            }
        } else {
            assert forall|i: int, j: int| 0 <= i < pieces(s).len() && 0 <= j < pieces(s)[i].len() implies #[trigger] pieces(s)[i][j] != '/' by {
                if i < before.len() {
                    assert(pieces(s)[i] == before[i]);
                }
            }
        }
    }
}

/// Resolving pieces free of `/` leaves only clean segments.
proof fn resolved_clean(ps: Seq<Seq<char>>)
    requires
        forall|i: int, j: int| 0 <= i < ps.len() && 0 <= j < ps[i].len() ==> #[trigger] ps[i][j] != '/',
    ensures
        forall|i: int| 0 <= i < resolved(ps).len() ==> clean_segment(#[trigger] resolved(ps)[i]),
    decreases ps.len(),
{
    if ps.len() > 0 {
        let rest = ps.drop_last();
        assert forall|i: int, j: int| 0 <= i < rest.len() && 0 <= j < rest[i].len() implies #[trigger] rest[i][j] != '/' by {
            assert(rest[i] == ps[i]);
        }
        resolved_clean(rest);
        let before = resolved(rest);
        let piece = ps.last();
        assert(piece == ps[ps.len() - 1]);
        assert forall|i: int| 0 <= i < resolved(ps).len() implies clean_segment(#[trigger] resolved(ps)[i]) by {
            if piece.len() == 0 || piece == dot() {
            } else if piece == dot_dot() {
                if before.len() > 0 {
                    assert(resolved(ps)[i] == before[i]);
                }
            } else {
                if i < before.len() {
                    assert(resolved(ps)[i] == before[i]);
                } else {
                    assert(resolved(ps)[i] == piece);
                    assert forall|j: int| 0 <= j < piece.len() implies piece[j] != '/' by {
                        assert(ps[ps.len() - 1][j] != '/');
                    }
                }
            }
        }
    }
}

/// Every canonical path is `/` followed by clean segments joined with `/`.
pub proof fn normalized_has_clean_segments(path: Seq<char>)
    ensures
        exists|segs: Seq<Seq<char>>| {
            &&& forall|i: int| 0 <= i < segs.len() ==> clean_segment(#[trigger] segs[i])
            &&& normalized(path) == root() + #[trigger] joined(segs, root())
        },
{
    let t = trimmed(path);
    if t.len() == 0 || t == root() {
        let segs = Seq::<Seq<char>>::empty();
        assert(root() + joined(segs, root()) =~= root());
    } else {
        pieces_slash_free(t);
        resolved_clean(pieces(t));
        let segs = resolved(pieces(t));
        assert(normalized(path) == root() + joined(segs, root()));
    }
}

/// Reading a slash-free `s` after a `/` adds it as one new piece.
proof fn pieces_after_slash(prefix: Seq<char>, s: Seq<char>)
    requires
        forall|j: int| 0 <= j < s.len() ==> s[j] != '/',
    ensures
        pieces(prefix + root() + s) == pieces(prefix).push(s),
    decreases s.len(),
{
    let whole = prefix + root() + s;
    if s.len() == 0 {
        assert(whole =~= prefix.push('/'));
        assert(whole.drop_last() =~= prefix);
        assert(whole.last() == '/');
        assert(s =~= Seq::<char>::empty());
        assert(pieces(whole) == pieces(whole.drop_last()).push(Seq::empty()));
    } else {
        let init = s.drop_last();
        assert forall|j: int| 0 <= j < init.len() implies init[j] != '/' by {
            assert(init[j] == s[j]);
        }
        pieces_after_slash(prefix, init);
        assert(whole.drop_last() =~= prefix + root() + init);
        assert(s.last() == s[s.len() - 1]);
        assert(whole.last() == s.last());
        assert(s.last() != '/');
        assert(init.push(s.last()) =~= s);
        let before = pieces(prefix).push(init);
        assert(pieces(whole) == before.update(before.len() - 1, before.last().push(s.last())));
        assert(before.update(before.len() - 1, before.last().push(s.last())) =~= pieces(prefix).push(s));
    }
}

/// The pieces of `/` followed by slash-free segments joined with `/`: an
/// empty piece, then the segments.
proof fn pieces_of_rooted_join(segs: Seq<Seq<char>>)
    requires
        segs.len() > 0,
        forall|i: int| 0 <= i < segs.len() ==> clean_segment(#[trigger] segs[i]),
    ensures
        pieces(root() + joined(segs, root())) == seq![Seq::<char>::empty()] + segs,
    decreases segs.len(),
{
    if segs.len() == 1 {
        assert(clean_segment(segs[0]));
        pieces_after_slash(Seq::empty(), segs[0]);
        assert(Seq::<char>::empty() + root() + segs[0] =~= root() + segs[0]);
        assert(pieces(Seq::<char>::empty()) == seq![Seq::<char>::empty()]);
        assert(seq![Seq::<char>::empty()].push(segs[0]) =~= seq![Seq::<char>::empty()] + segs);
    } else {
        let init = segs.drop_last();
        assert forall|i: int| 0 <= i < init.len() implies clean_segment(#[trigger] init[i]) by {
            assert(init[i] == segs[i]);
        }
        pieces_of_rooted_join(init);
        let last = segs.last();
        assert(clean_segment(segs[segs.len() - 1]));
        assert(last == segs[segs.len() - 1]);
        pieces_after_slash(root() + joined(init, root()), last);
        assert(root() + joined(segs, root()) =~= (root() + joined(init, root())) + root() + last);
        assert((seq![Seq::<char>::empty()] + init).push(last) =~= seq![Seq::<char>::empty()] + segs);
    }
}

/// Resolving an empty piece followed by clean segments gives the segments.
proof fn resolved_after_root(segs: Seq<Seq<char>>)
    requires
        forall|i: int| 0 <= i < segs.len() ==> clean_segment(#[trigger] segs[i]),
    ensures
        resolved(seq![Seq::<char>::empty()] + segs) == segs,
    decreases segs.len(),
{
    let ps = seq![Seq::<char>::empty()] + segs;
    if segs.len() == 0 {
        assert(ps =~= seq![Seq::<char>::empty()]);
        assert(ps.drop_last() =~= Seq::<Seq<char>>::empty());
        assert(ps.last() == Seq::<char>::empty());
        assert(resolved(ps.drop_last()) == Seq::<Seq<char>>::empty());
        assert(resolved(ps) == resolve_step(Seq::<Seq<char>>::empty(), Seq::<char>::empty()));
        assert(segs =~= Seq::<Seq<char>>::empty());
    } else {
        let init = segs.drop_last();
        assert forall|i: int| 0 <= i < init.len() implies clean_segment(#[trigger] init[i]) by {
            assert(init[i] == segs[i]);
        }
        resolved_after_root(init);
        assert(ps.drop_last() =~= seq![Seq::<char>::empty()] + init);
        assert(ps.last() == segs[segs.len() - 1]);
        assert(clean_segment(segs[segs.len() - 1]));
        assert(init.push(segs[segs.len() - 1]) =~= segs);
        assert(resolved(ps) == resolve_step(resolved(ps.drop_last()), ps.last()));
    }
}

/// Clean segments joined with `/` are not empty when there is one.
proof fn joined_not_empty(segs: Seq<Seq<char>>)
    requires
        segs.len() > 0,
        forall|i: int| 0 <= i < segs.len() ==> clean_segment(#[trigger] segs[i]),
    ensures
        joined(segs, root()).len() > 0,
{
    if segs.len() == 1 {
        assert(clean_segment(segs[0]));
    }
}

/// A text that neither starts nor ends with white space is its own trim.
proof fn trimmed_untouched(s: Seq<char>)
    requires
        s.len() > 0,
        !is_white_space(s[0]),
        !is_white_space(s.last()),
    ensures
        trimmed(s) == s,
{
    assert(trim_start_index(s) == 0);
    assert(trim_end_index(s) == s.len());
    assert(s.subrange(0, s.len() as int) =~= s);
}

/// Normalising is idempotent: a canonical path that does not end in white
/// space normalises to itself. (A canonical path can end in white space
/// only when its last segment does, as `/a /x/..` gives `/a `.)
pub proof fn normalize_is_idempotent(path: Seq<char>)
    requires
        !is_white_space(normalized(path).last()),
    ensures
        normalized(normalized(path)) == normalized(path),
{
    let t = trimmed(path);
    let n = normalized(path);
    assert(!is_white_space('/'));
    if t.len() == 0 || t == root() {
        trimmed_untouched(root());
    } else {
        pieces_slash_free(t);
        resolved_clean(pieces(t));
        let segs = resolved(pieces(t));
        if segs.len() == 0 {
            assert(n =~= root());
            trimmed_untouched(root());
        } else {
            joined_not_empty(segs);
            assert(n[0] == '/');
            trimmed_untouched(n);
            assert(n.len() > 1);
            assert(n != root());
            pieces_of_rooted_join(segs);
            resolved_after_root(segs);
        }
    }
}

/// Every piece of `p` is empty or neither starts nor ends with white space.
pub open spec fn segments_unpadded(p: Seq<char>) -> bool {
    forall|i: int| 0 <= i < pieces(p).len() ==> {
        let piece = #[trigger] pieces(p)[i];
        piece.len() == 0 || (!is_white_space(piece[0]) && !is_white_space(piece.last()))
    }
}

/// The first piece of a text that does not start with `/` begins with the
/// text's first character.
proof fn first_piece_starts(s: Seq<char>)
    requires
        s.len() > 0,
        s[0] != '/',
    ensures
        pieces(s)[0].len() > 0,
        pieces(s)[0][0] == s[0],
    decreases s.len(),
{
    let rest = s.drop_last();
    pieces_not_empty(rest);
    if rest.len() == 0 {
        assert(pieces(rest) == seq![Seq::<char>::empty()]);
        assert(s.last() == s[0]);
    } else {
        assert(rest[0] == s[0]);
        first_piece_starts(rest);
        let before = pieces(rest);
        if s.last() != '/' && before.len() == 1 {
            assert(pieces(s)[0] == before[0].push(s.last()));
        }
    }
}

/// Every segment that resolving keeps is one of the pieces.
proof fn resolved_from(ps: Seq<Seq<char>>)
    ensures
        forall|i: int| 0 <= i < resolved(ps).len() ==> ps.contains(#[trigger] resolved(ps)[i]),
    decreases ps.len(),
{
    if ps.len() > 0 {
        let rest = ps.drop_last();
        resolved_from(rest);
        let before = resolved(rest);
        let piece = ps.last();
        assert(piece == ps[ps.len() - 1]);
        assert forall|i: int| 0 <= i < resolved(ps).len() implies ps.contains(#[trigger] resolved(ps)[i]) by {
            if piece.len() == 0 || piece == dot() {
            } else if piece == dot_dot() {
                if before.len() > 0 {
                    assert(resolved(ps)[i] == before[i]);
                }
            } else if i == before.len() {
                assert(resolved(ps)[i] == piece);
            } else {
                assert(resolved(ps)[i] == before[i]);
            }
            if i < before.len() && resolved(ps)[i] == before[i] {
                let j = choose|j: int| 0 <= j < rest.len() && rest[j] == before[i];
                assert(ps[j] == rest[j]);
            }
        }
    }
}

/// Segments joined with `/` end with the last segment's last character.
proof fn joined_ends_with_last(segs: Seq<Seq<char>>)
    requires
        segs.len() > 0,
        segs.last().len() > 0,
    ensures
        joined(segs, root()).len() > 0,
        joined(segs, root()).last() == segs.last().last(),
{
    if segs.len() == 1 {
        assert(segs.last() == segs[0]);
    } else {
        let j = joined(segs.drop_last(), root()) + root() + segs.last();
        assert(joined(segs, root()) == j);
        assert(j.last() == segs.last().last());
    }
}

/// Normalising is idempotent for a path whose segments carry no leading or
/// trailing white space: its canonical form normalises to itself.
pub proof fn normalize_idempotent_on_unpadded_paths(path: Seq<char>)
    requires
        segments_unpadded(path),
    ensures
        normalized(normalized(path)) == normalized(path),
{
    assert(!is_white_space('/'));
    if path.len() == 0 {
        assert(normalized(path) == root());
        normalize_is_idempotent(path);
        return;
    }
    pieces_not_empty(path);
    let ps = pieces(path);
    if path[0] != '/' {
        first_piece_starts(path);
        assert(!is_white_space(ps[0][0]));
    }
    if path.last() != '/' {
        pieces_not_empty(path.drop_last());
        let before = pieces(path.drop_last());
        assert(ps == before.update(before.len() - 1, before.last().push(path.last())));
        assert(ps.last() == before.last().push(path.last()));
        assert(ps.last() == ps[ps.len() - 1]);
        assert(!is_white_space(ps[ps.len() - 1].last()));
    }
    trimmed_untouched(path);
    let n = normalized(path);
    if path == root() {
        normalize_is_idempotent(path);
        return;
    }
    pieces_slash_free(path);
    resolved_clean(ps);
    resolved_from(ps);
    let segs = resolved(ps);
    if segs.len() == 0 {
        assert(n =~= root());
    } else {
        let last = segs[segs.len() - 1];
        assert(clean_segment(last));
        assert(ps.contains(last));
        let j = choose|j: int| 0 <= j < ps.len() && ps[j] == last;
        assert(!is_white_space(last.last()));
        assert(segs.last() == last);
        joined_ends_with_last(segs);
        assert(n.last() == last.last());
    }
    normalize_is_idempotent(path);
}

} // verus!
