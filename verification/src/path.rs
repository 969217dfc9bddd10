//! Unix paths held as text: joining the way `PathBuf::push` does, the
//! components of a path, the last component, and lexical normalisation.
use crate::text::push_char;
use vstd::prelude::*;

verus! {

/// A path that starts at the root directory.
pub open spec fn spec_is_absolute(p: Seq<char>) -> bool {
    p.len() > 0 && p[0] == '/'
}

/// What `PathBuf::push(base, p)` leaves: an absolute `p` replaces the base,
/// otherwise `p` is appended after one separator (none when `base` is empty or
/// already ends with a separator).
pub open spec fn spec_push(base: Seq<char>, p: Seq<char>) -> Seq<char> {
    if spec_is_absolute(p) {
        p
    } else if base.len() == 0 || base.last() == '/' {
        base + p
    } else {
        base + seq!['/'] + p
    }
}

/// Whether the path is absolute.
pub fn is_absolute(p: &str) -> (r: bool)
    ensures
        r == spec_is_absolute(p@),
{
    p.unicode_len() > 0 && p.get_char(0) == '/'
}

/// Extends `base` by `p`, as `PathBuf::push` does.
pub fn path_push(base: &mut String, p: &str)
    ensures
        final(base)@ == spec_push(old(base)@, p@),
{
    if is_absolute(p) {
        *base = p.to_owned();
        return;
    }
    let n = base.as_str().unicode_len();
    if n > 0 && base.as_str().get_char(n - 1) != '/' {
        push_char(base, '/');
    }
    base.append(p);
}

/// `base` joined with `p`, as `Path::join` does.
pub fn path_join(base: &str, p: &str) -> (r: String)
    ensures
        r@ == spec_push(base@, p@),
{
    let mut s = base.to_owned();
    path_push(&mut s, p);
    s
}

/// The text of a path split at every separator; empty pieces stand where two
/// separators meet or at either end.
pub open spec fn pieces(s: Seq<char>) -> Seq<Seq<char>>
    decreases s.len(),
{
    if s.len() == 0 {
        seq![Seq::<char>::empty()]
    } else {
        let p = pieces(s.drop_last());
        if s.last() == '/' {
            p.push(Seq::<char>::empty())
        } else {
            p.update(p.len() - 1, p.last().push(s.last()))
        }
    }
}

/// A piece that names no directory: the empty piece or `.`.
pub open spec fn is_void_piece(c: Seq<char>) -> bool {
    c.len() == 0 || c == seq!['.']
}

/// The parent-directory piece `..`.
pub open spec fn is_parent_piece(c: Seq<char>) -> bool {
    c == seq!['.', '.']
}

/// A component that names an entry: neither void nor `..`.
pub open spec fn is_normal_piece(c: Seq<char>) -> bool {
    !is_void_piece(c) && !is_parent_piece(c)
}

/// One step of normalisation: `..` drops the last kept component, void pieces
/// are skipped, every other piece is kept.
pub open spec fn norm_step(kept: Seq<Seq<char>>, c: Seq<char>) -> Seq<Seq<char>> {
    if is_void_piece(c) {
        kept
    } else if is_parent_piece(c) {
        if kept.len() > 0 {
            kept.drop_last()
        } else {
            kept
        }
    } else {
        kept.push(c)
    }
}

/// The components kept after normalising the pieces `ps` from left to right.
pub open spec fn norm_fold(ps: Seq<Seq<char>>) -> Seq<Seq<char>>
    decreases ps.len(),
{
    if ps.len() == 0 {
        Seq::empty()
    } else {
        norm_step(norm_fold(ps.drop_last()), ps.last())
    }
}

/// The components joined by single separators.
pub open spec fn join_components(cs: Seq<Seq<char>>) -> Seq<char>
    decreases cs.len(),
{
    if cs.len() == 0 {
        Seq::empty()
    } else if cs.len() == 1 {
        cs[0]
    } else {
        join_components(cs.drop_last()) + seq!['/'] + cs.last()
    }
}

/// The lexically normalised form of a path: `.` and empty components are
/// dropped, `..` removes the component before it (and is dropped at the start),
/// and a leading root is kept.
pub open spec fn spec_normalize(s: Seq<char>) -> Seq<char> {
    let body = join_components(norm_fold(pieces(s)));
    if spec_is_absolute(s) {
        seq!['/'] + body
    } else {
        body
    }
}

/// The components that `Path::components` yields other than the root, with
/// `.` left out.
pub open spec fn visible_components(s: Seq<char>) -> Seq<Seq<char>> {
    pieces(s).filter(not_void())
}

/// The test that keeps the pieces naming something.
pub open spec fn not_void() -> spec_fn(Seq<char>) -> bool {
    |c: Seq<char>| !is_void_piece(c)
}

/// What `Path::file_name` gives: the last component when it is a normal one.
pub open spec fn spec_file_name(s: Seq<char>) -> Option<Seq<char>> {
    let cs = visible_components(s);
    if cs.len() > 0 && is_normal_piece(cs.last()) {
        Some(cs.last())
    } else {
        None
    }
}

proof fn lemma_pieces_nonempty(s: Seq<char>)
    ensures
        pieces(s).len() > 0,
    decreases s.len(),
{
    if s.len() > 0 {
        lemma_pieces_nonempty(s.drop_last());
    }
}

/// Every component that normalisation keeps is a normal one.
pub proof fn lemma_norm_fold_normal(ps: Seq<Seq<char>>)
    ensures
        forall|i: int| 0 <= i < norm_fold(ps).len() ==> is_normal_piece(#[trigger] norm_fold(ps)[i]),
    decreases ps.len(),
{
    if ps.len() > 0 {
        lemma_norm_fold_normal(ps.drop_last());
        let r = norm_fold(ps.drop_last());
        let c = ps.last();
        if is_parent_piece(c) && r.len() > 0 {
            assert forall|i: int| 0 <= i < r.drop_last().len() implies is_normal_piece(
                #[trigger] r.drop_last()[i],
            ) by {
                assert(r.drop_last()[i] == r[i]);
            }
        } else if !is_void_piece(c) && !is_parent_piece(c) {
            assert forall|i: int| 0 <= i < r.push(c).len() implies is_normal_piece(
                #[trigger] r.push(c)[i],
            ) by {
                if i < r.len() {
                    assert(r.push(c)[i] == r[i]);
                }
            }
        }
    }
}

fn is_dot_piece(c: &Vec<char>) -> (r: (bool, bool))
    ensures
        r.0 == is_void_piece(c@),
        r.1 == is_parent_piece(c@),
{
    let void = c.len() == 0 || (c.len() == 1 && c[0] == '.');
    let parent = c.len() == 2 && c[0] == '.' && c[1] == '.';
    proof {
        if c.len() == 1 && c[0] == '.' {
            assert(c@ =~= seq!['.']);
        }
        if c.len() == 2 && c[0] == '.' && c[1] == '.' {
            assert(c@ =~= seq!['.', '.']);
        }
    }
    (void, parent)
}

/// The view of a list of character vectors.
pub open spec fn views(v: Seq<Vec<char>>) -> Seq<Seq<char>> {
    v.map_values(|c: Vec<char>| c@)
}

fn apply_norm_step(kept: &mut Vec<Vec<char>>, c: Vec<char>)
    ensures
        views(final(kept)@) == norm_step(views(old(kept)@), c@),
{
    let (void, parent) = is_dot_piece(&c);
    if void {
    } else if parent {
        if kept.len() > 0 {
            kept.pop();
            assert(views(kept@) =~= views(old(kept)@).drop_last());
        }
    } else {
        kept.push(c);
        assert(views(kept@) =~= views(old(kept)@).push(c@));
    }
}

pub fn chars_of(s: &str) -> (v: Vec<char>)
    ensures
        v@ == s@,
{
    let n = s.unicode_len();
    let mut v: Vec<char> = Vec::new();
    let mut i: usize = 0;
    while i < n
        invariant
            n == s@.len(),
            i <= n,
            v@ == s@.take(i as int),
        decreases n - i,
    {
        v.push(s.get_char(i));
        i = i + 1;
        assert(v@ =~= s@.take(i as int));
    }
    assert(s@.take(n as int) =~= s@);
    v
}

/// The pieces of `s`, as character vectors.
fn split_pieces(s: &Vec<char>) -> (r: Vec<Vec<char>>)
    ensures
        views(r@) == pieces(s@),
{
    let mut done: Vec<Vec<char>> = Vec::new();
    let mut cur: Vec<char> = Vec::new();
    let mut i: usize = 0;
    assert(pieces(s@.take(0)) =~= seq![Seq::<char>::empty()]);
    while i < s.len()
        invariant
            i <= s.len(),
            views(done@).push(cur@) == pieces(s@.take(i as int)),
        decreases s.len() - i,
    {
        let c = s[i];
        let ghost prev = s@.take(i as int);
        assert(s@.take(i + 1).drop_last() =~= prev);
        assert(s@.take(i + 1).last() == c);
        if c == '/' {
            let finished = cur;
            cur = Vec::new();
            let ghost before = done@;
            done.push(finished);
            assert(views(done@) =~= views(before).push(finished@));
            proof {
                assert(views(done@).push(cur@) =~= pieces(prev).push(Seq::<char>::empty()));
            }
        } else {
            cur.push(c);
            proof {
                let p = pieces(prev);
                assert(views(done@).push(cur@) =~= p.update(p.len() - 1, p.last().push(c)));
            }
        }
        i = i + 1;
    }
    assert(s@.take(s.len() as int) =~= s@);
    let ghost before = done@;
    done.push(cur);
    assert(views(done@) =~= views(before).push(cur@));
    done
}

/// Normalises a path without touching the file system: `.` components are
/// dropped and `..` removes the component before it.
pub fn normalize_path(path: &str) -> (r: String)
    ensures
        r@ == spec_normalize(path@),
{
    let chars = chars_of(path);
    let ps = split_pieces(&chars);
    let mut kept: Vec<Vec<char>> = Vec::new();
    let mut i: usize = 0;
    assert(views(kept@) =~= norm_fold(views(ps@).take(0)));
    while i < ps.len()
        invariant
            i <= ps.len(),
            views(ps@) == pieces(path@),
            views(kept@) == norm_fold(views(ps@).take(i as int)),
        decreases ps.len() - i,
    {
        let c = ps[i].clone();
        assert(c@ == views(ps@)[i as int]);
        assert(views(ps@).take(i + 1).drop_last() =~= views(ps@).take(i as int));
        apply_norm_step(&mut kept, c);
        i = i + 1;
    }
    assert(views(ps@).take(ps.len() as int) =~= views(ps@));
    let mut out = String::new();
    let absolute = is_absolute(path);
    if absolute {
        push_char(&mut out, '/');
    }
    let ghost start = out@;
    let mut k: usize = 0;
    while k < kept.len()
        invariant
            k <= kept.len(),
            out@ == start + join_components(views(kept@).take(k as int)),
        decreases kept.len() - k,
    {
        let ghost before = out@;
        if k > 0 {
            push_char(&mut out, '/');
        }
        let comp = &kept[k];
        let mut j: usize = 0;
        let ghost mid = out@;
        while j < comp.len()
            invariant
                j <= comp.len(),
                out@ == mid + comp@.take(j as int),
            decreases comp.len() - j,
        {
            push_char(&mut out, comp[j]);
            j = j + 1;
            assert(out@ =~= mid + comp@.take(j as int));
        }
        assert(comp@.take(comp.len() as int) =~= comp@);
        proof {
            let cs = views(kept@).take(k + 1);
            assert(cs.drop_last() =~= views(kept@).take(k as int));
            assert(cs.last() == comp@);
            if k == 0 {
                assert(join_components(cs) == cs[0]);
                assert(out@ =~= start + join_components(cs));
            } else {
                assert(out@ =~= start + join_components(cs));
            }
        }
        k = k + 1;
    }
    assert(views(kept@).take(kept.len() as int) =~= views(kept@));
    proof {
        if absolute {
            assert(start =~= seq!['/']);
        } else {
            assert(start =~= Seq::<char>::empty());
            assert(out@ =~= join_components(views(kept@)));
        }
    }
    out
}

/// The last component of a path when it names an entry, as `Path::file_name` gives it.
pub fn file_name(path: &str) -> (r: Option<String>)
    ensures
        match r {
            Some(n) => spec_file_name(path@) == Some(n@),
            None => spec_file_name(path@) is None,
        },
{
    let chars = chars_of(path);
    let ps = split_pieces(&chars);
    let mut i: usize = ps.len();
    proof {
        lemma_pieces_nonempty(path@);
    }
    // Walk back over the void pieces at the end.
    while i > 0
        invariant
            i <= ps.len(),
            views(ps@) == pieces(path@),
            forall|j: int| i <= j < ps.len() ==> is_void_piece(#[trigger] views(ps@)[j]),
        ensures
            i == 0 || !is_void_piece(views(ps@)[i - 1]),
            forall|j: int| i <= j < ps.len() ==> is_void_piece(#[trigger] views(ps@)[j]),
        decreases i,
    {
        let (void, _) = is_dot_piece(&ps[i - 1]);
        if !void {
            break;
        }
        i = i - 1;
    }
    proof {
        lemma_filter_tail_void(views(ps@), i as int);
    }
    if i == 0 {
        return None;
    }
    let last = &ps[i - 1];
    assert(views(ps@)[i - 1] == last@);
    let (void, parent) = is_dot_piece(last);
    if void || parent {
        return None;
    }
    let mut name = String::new();
    let mut j: usize = 0;
    while j < last.len()
        invariant
            j <= last.len(),
            name@ == last@.take(j as int),
        decreases last.len() - j,
    {
        push_char(&mut name, last[j]);
        j = j + 1;
        assert(name@ =~= last@.take(j as int));
    }
    assert(last@.take(last.len() as int) =~= last@);
    Some(name)
}

/// Dropping void pieces from the end does not change the filtered list; the
/// filtered list of the rest ends with the last non-void piece.
proof fn lemma_filter_tail_void(ps: Seq<Seq<char>>, i: int)
    requires
        0 <= i <= ps.len(),
        forall|j: int| i <= j < ps.len() ==> is_void_piece(#[trigger] ps[j]),
    ensures
        ps.filter(not_void()) == ps.take(i).filter(not_void()),
        i > 0 && !is_void_piece(ps[i - 1]) ==> ps.take(i).filter(not_void()).last() == ps[i - 1]
            && ps.take(i).filter(not_void()).len() > 0,
        i == 0 ==> ps.filter(not_void()).len() == 0,
    decreases ps.len() - i,
{
    let f = not_void();
    reveal_with_fuel(Seq::filter, 2);
    if i < ps.len() {
        lemma_filter_tail_void(ps.drop_last(), i);
        assert(ps.drop_last().take(i) =~= ps.take(i));
        assert(ps.filter(f) == ps.drop_last().filter(f));
    } else {
        assert(ps.take(i) =~= ps);
    }
    if i > 0 && !is_void_piece(ps[i - 1]) {
        assert(ps.take(i).drop_last() =~= ps.take(i - 1));
        assert(ps.take(i).filter(f) == ps.take(i - 1).filter(f).push(ps[i - 1]));
    }
    if i == 0 {
        assert(ps.take(0) =~= Seq::<Seq<char>>::empty());
        assert(ps.take(0).filter(f) =~= Seq::<Seq<char>>::empty());
    }
}

/// A piece holds no separator.
pub open spec fn no_sep(c: Seq<char>) -> bool {
    forall|k: int| 0 <= k < c.len() ==> c[k] != '/'
}

proof fn lemma_pieces_no_sep(s: Seq<char>)
    ensures
        forall|j: int| 0 <= j < pieces(s).len() ==> no_sep(#[trigger] pieces(s)[j]),
    decreases s.len(),
{
    if s.len() > 0 {
        lemma_pieces_no_sep(s.drop_last());
        lemma_pieces_nonempty(s.drop_last());
        let p = pieces(s.drop_last());
        if s.last() == '/' {
            assert forall|j: int| 0 <= j < pieces(s).len() implies no_sep(#[trigger] pieces(s)[j]) by {
                if j < p.len() {
                    assert(pieces(s)[j] == p[j]);
                }
            }
        } else {
            assert forall|j: int| 0 <= j < pieces(s).len() implies no_sep(#[trigger] pieces(s)[j]) by {
                if j < p.len() - 1 {
                    assert(pieces(s)[j] == p[j]);
                } else {
                    assert(pieces(s)[j] == p.last().push(s.last()));
                    assert(no_sep(p[p.len() - 1]));
                }
            }
        }
    }
}

proof fn lemma_pieces_single(c: Seq<char>)
    requires
        no_sep(c),
    ensures
        pieces(c) == seq![c],
    decreases c.len(),
{
    if c.len() > 0 {
        let d = c.drop_last();
        lemma_pieces_single(d);
        assert(d.push(c.last()) =~= c);
        assert(pieces(c) =~= seq![c]);
    } else {
        assert(c =~= Seq::<char>::empty());
    }
}

/// Splitting at a separator splits the pieces.
proof fn lemma_pieces_append(a: Seq<char>, b: Seq<char>)
    ensures
        pieces(a + seq!['/'] + b) == pieces(a) + pieces(b),
    decreases b.len(),
{
    let x = a + seq!['/'] + b;
    if b.len() == 0 {
        assert(x.drop_last() =~= a);
        assert(pieces(b) =~= seq![Seq::<char>::empty()]);
        assert(pieces(x) =~= pieces(a) + pieces(b));
    } else {
        let b1 = b.drop_last();
        lemma_pieces_append(a, b1);
        lemma_pieces_nonempty(b1);
        assert(x.drop_last() =~= a + seq!['/'] + b1);
        let p = pieces(a) + pieces(b1);
        if b.last() == '/' {
            assert(pieces(x) =~= pieces(a) + pieces(b));
        } else {
            let q = pieces(b1);
            assert(p.last() == q.last());
            assert(p.update(p.len() - 1, p.last().push(b.last())) =~= pieces(a) + q.update(
                q.len() - 1,
                q.last().push(b.last()),
            ));
        }
    }
}

proof fn lemma_pieces_join(cs: Seq<Seq<char>>)
    requires
        cs.len() > 0,
        forall|j: int| 0 <= j < cs.len() ==> no_sep(#[trigger] cs[j]),
    ensures
        pieces(join_components(cs)) == cs,
    decreases cs.len(),
{
    if cs.len() == 1 {
        lemma_pieces_single(cs[0]);
        assert(seq![cs[0]] =~= cs);
    } else {
        let c1 = cs.drop_last();
        assert forall|j: int| 0 <= j < c1.len() implies no_sep(#[trigger] c1[j]) by {
            assert(c1[j] == cs[j]);
        }
        lemma_pieces_join(c1);
        lemma_pieces_append(join_components(c1), cs.last());
        assert(no_sep(cs[cs.len() - 1]));
        lemma_pieces_single(cs.last());
        assert(c1 + seq![cs.last()] =~= cs);
    }
}

proof fn lemma_norm_fold_no_sep(ps: Seq<Seq<char>>)
    requires
        forall|j: int| 0 <= j < ps.len() ==> no_sep(#[trigger] ps[j]),
    ensures
        forall|i: int| 0 <= i < norm_fold(ps).len() ==> no_sep(#[trigger] norm_fold(ps)[i]),
    decreases ps.len(),
{
    if ps.len() > 0 {
        let p1 = ps.drop_last();
        assert forall|j: int| 0 <= j < p1.len() implies no_sep(#[trigger] p1[j]) by {
            assert(p1[j] == ps[j]);
        }
        lemma_norm_fold_no_sep(p1);
        let r = norm_fold(p1);
        let c = ps.last();
        assert(no_sep(ps[ps.len() - 1]));
        if is_parent_piece(c) && r.len() > 0 {
            assert forall|i: int| 0 <= i < r.drop_last().len() implies no_sep(
                #[trigger] r.drop_last()[i],
            ) by {
                assert(r.drop_last()[i] == r[i]);
            }
        } else if !is_void_piece(c) && !is_parent_piece(c) {
            assert forall|i: int| 0 <= i < r.push(c).len() implies no_sep(#[trigger] r.push(c)[i]) by {
                if i < r.len() {
                    assert(r.push(c)[i] == r[i]);
                }
            }
        }
    }
}

proof fn lemma_norm_fold_of_normal(cs: Seq<Seq<char>>)
    requires
        forall|j: int| 0 <= j < cs.len() ==> is_normal_piece(#[trigger] cs[j]),
    ensures
        norm_fold(cs) == cs,
    decreases cs.len(),
{
    if cs.len() > 0 {
        let c1 = cs.drop_last();
        assert forall|j: int| 0 <= j < c1.len() implies is_normal_piece(#[trigger] c1[j]) by {
            assert(c1[j] == cs[j]);
        }
        lemma_norm_fold_of_normal(c1);
        assert(is_normal_piece(cs[cs.len() - 1]));
        assert(c1.push(cs.last()) =~= cs);
    } else {
        assert(cs =~= Seq::<Seq<char>>::empty());
    }
}

proof fn lemma_norm_fold_of_void()
    ensures
        norm_fold(seq![Seq::<char>::empty()]) == Seq::<Seq<char>>::empty(),
{
    let e = seq![Seq::<char>::empty()];
    assert(e.drop_last() =~= Seq::<Seq<char>>::empty());
    assert(norm_fold(Seq::<Seq<char>>::empty()) == Seq::<Seq<char>>::empty());
    assert(is_void_piece(e.last()));
}

proof fn lemma_norm_fold_skips_leading_void(cs: Seq<Seq<char>>)
    ensures
        norm_fold(seq![Seq::<char>::empty()] + cs) == norm_fold(cs),
    decreases cs.len(),
{
    let e = seq![Seq::<char>::empty()];
    if cs.len() == 0 {
        assert(e + cs =~= e);
        lemma_norm_fold_of_void();
    } else {
        lemma_norm_fold_skips_leading_void(cs.drop_last());
        assert((e + cs).drop_last() =~= e + cs.drop_last());
        assert((e + cs).last() == cs.last());
    }
}

proof fn lemma_join_first(cs: Seq<Seq<char>>)
    requires
        cs.len() > 0,
        cs[0].len() > 0,
    ensures
        join_components(cs).len() > 0,
        join_components(cs)[0] == cs[0][0],
    decreases cs.len(),
{
    if cs.len() > 1 {
        lemma_join_first(cs.drop_last());
    }
}

/// The parts of a normalised path: its components (all normal, none holding a
/// separator) and whether it is absolute.
proof fn lemma_normalize_parts(s: Seq<char>)
    ensures
        ({
            let k = norm_fold(pieces(s));
            &&& forall|i: int| 0 <= i < k.len() ==> is_normal_piece(#[trigger] k[i]) && no_sep(k[i])
            &&& spec_is_absolute(spec_normalize(s)) == spec_is_absolute(s)
            &&& norm_fold(pieces(spec_normalize(s))) == k
            &&& forall|j: int|
                0 <= j < pieces(spec_normalize(s)).len() ==> !is_parent_piece(
                    #[trigger] pieces(spec_normalize(s))[j],
                )
        }),
{
    let k = norm_fold(pieces(s));
    lemma_norm_fold_normal(pieces(s));
    lemma_pieces_no_sep(s);
    lemma_norm_fold_no_sep(pieces(s));
    let body = join_components(k);
    let e = Seq::<char>::empty();
    if k.len() == 0 {
        assert(body == e);
        assert(pieces(e) =~= seq![e]);
        lemma_norm_fold_of_void();
        if spec_is_absolute(s) {
            lemma_pieces_append(e, e);
            assert(e + seq!['/'] + e =~= seq!['/'] + body);
            assert(pieces(e) + pieces(e) =~= seq![e] + seq![e]);
            lemma_norm_fold_skips_leading_void(seq![e]);
        }
    } else {
        lemma_pieces_join(k);
        lemma_norm_fold_of_normal(k);
        if spec_is_absolute(s) {
            lemma_pieces_append(e, body);
            assert(e + seq!['/'] + body =~= seq!['/'] + body);
            assert(pieces(e) =~= seq![e]);
            lemma_norm_fold_skips_leading_void(k);
        } else {
            assert(is_normal_piece(k[0]) && no_sep(k[0]));
            lemma_join_first(k);
        }
    }
}

/// Normalising a normalised path changes nothing.
pub proof fn lemma_normalize_idempotent(s: Seq<char>)
    ensures
        spec_normalize(spec_normalize(s)) == spec_normalize(s),
{
    lemma_normalize_parts(s);
}

/// A normalised path holds no `..` or `.` component: once joined to a
/// directory, a relative archive entry cannot climb out of it.
pub proof fn lemma_normalized_components_normal(s: Seq<char>)
    ensures
        forall|i: int| 0 <= i < visible_components(spec_normalize(s)).len()
            ==> is_normal_piece(#[trigger] visible_components(spec_normalize(s))[i]),
        !spec_is_absolute(s) ==> !spec_is_absolute(spec_normalize(s)),
{
    lemma_normalize_parts(s);
    let ps = pieces(spec_normalize(s));
    let vc = visible_components(spec_normalize(s));
    assert forall|i: int| 0 <= i < vc.len() implies is_normal_piece(#[trigger] vc[i]) by {
        ps.lemma_filter_pred(not_void(), i);
        ps.lemma_filter_contains_rev(not_void(), vc[i]);
        let j = choose|j: int| 0 <= j < ps.len() && ps[j] == vc[i];
        assert(!is_parent_piece(ps[j]));
    }
}

} // verus!
