//! Splitting access paths such as `$a->b['c']::$d` into their parts.
use vstd::prelude::*;

verus! {

/// The scanner state while walking an access path byte by byte.
pub struct SplitState {
    /// The parts that are complete.
    pub done: Seq<Seq<u8>>,
    /// The part being filled.
    pub current: Seq<u8>,
    /// The quote that opened the string being read, if any.
    pub quote: Option<u8>,
    /// Whether the previous byte inside a string was an unescaped backslash.
    pub escape: bool,
    /// The depth of `[` brackets.
    pub brackets: int,
}

pub open spec fn initial_split_state() -> SplitState {
    SplitState { done: Seq::empty(), current: Seq::empty(), quote: None, escape: false, brackets: 0 }
}

/// Appends a token as a part of its own and opens a new, empty part.
pub open spec fn with_token(st: SplitState, token: Seq<u8>) -> SplitState {
    SplitState {
        done: if st.current.len() == 0 { st.done.push(token) } else { st.done.push(st.current).push(token) },
        current: Seq::empty(),
        ..st
    }
}

pub open spec fn with_byte(st: SplitState, c: u8) -> SplitState {
    SplitState { current: st.current.push(c), ..st }
}

/// The byte at `i`, if `i` is inside the path.
pub open spec fn byte_at(path: Seq<u8>, i: int) -> Option<u8> {
    if 0 <= i < path.len() { Some(path[i]) } else { None }
}

/// One scanner step on the byte at `i`: the position of the next byte to read and the new state.
pub open spec fn split_step(path: Seq<u8>, i: int, st: SplitState) -> (int, SplitState)
    recommends 0 <= i < path.len(),
{
    let c = path[i];
    let j = i + 1;
    match st.quote {
        Some(q) => {
            let st1 = with_byte(st, c);
            (j, SplitState {
                quote: if c == q && !st.escape { None } else { Some(q) },
                escape: c == 92u8 && !st.escape,
                ..st1
            })
        },
        None => {
            if c == 91u8 {
                // `[`
                let st1 = if st.brackets == 0 { with_token(st, seq![91u8]) } else { with_byte(st, c) };
                (j, SplitState { brackets: st.brackets + 1, ..st1 })
            } else if c == 93u8 {
                // `]`
                let b = st.brackets - 1;
                let st1 = if b == 0 { with_token(st, seq![93u8]) } else { with_byte(st, c) };
                (j, SplitState { brackets: b, ..st1 })
            } else if c == 39u8 || c == 34u8 {
                // a quote opens a string
                (j, SplitState { quote: Some(c), ..with_byte(st, c) })
            } else if c == 58u8 && st.brackets == 0 && byte_at(path, j) == Some(58u8) {
                // `::`
                if byte_at(path, j + 1) == Some(36u8) {
                    (j + 2, with_token(st, seq![58u8, 58u8, 36u8]))
                } else {
                    (j, with_byte(st, c))
                }
            } else if c == 45u8 && st.brackets == 0 && byte_at(path, j) == Some(62u8) {
                // `->`
                (j + 1, with_token(st, seq![45u8, 62u8]))
            } else {
                (j, with_byte(st, c))
            }
        },
    }
}

/// The state after scanning the path from position `i` on.
pub open spec fn split_from(path: Seq<u8>, i: int, st: SplitState) -> SplitState
    decreases path.len() - i,
{
    if i < 0 || i >= path.len() {
        st
    } else {
        let (j, st1) = split_step(path, i, st);
        if j <= i {
            st1
        } else {
            split_from(path, j, st1)
        }
    }
}

/// The parts of a path: the complete parts, and the last part if it is not empty.
pub open spec fn split_path(path: Seq<u8>) -> Seq<Seq<u8>> {
    if path.len() == 0 {
        seq![Seq::<u8>::empty()]
    } else {
        let st = split_from(path, 0, initial_split_state());
        if st.current.len() == 0 { st.done } else { st.done.push(st.current) }
    }
}

/// What scanning the first `i` bytes keeps: the parts read so far spell
/// exactly those bytes, and no complete part is empty.
pub open spec fn split_invariant(path: Seq<u8>, i: int, st: SplitState) -> bool {
    &&& 0 <= i <= path.len()
    &&& st.done.flatten() + st.current == path.subrange(0, i)
    &&& forall|k: int| 0 <= k < st.done.len() ==> #[trigger] st.done[k].len() > 0
}

proof fn lemma_with_token(path: Seq<u8>, i: int, j: int, st: SplitState, token: Seq<u8>)
    requires
        split_invariant(path, i, st),
        i < j <= path.len(),
        token.len() > 0,
        token == path.subrange(i, j),
    ensures
        split_invariant(path, j, with_token(st, token)),
{
    broadcast use Seq::lemma_flatten_push;
    let st1 = with_token(st, token);
    assert(path.subrange(0, j) =~= path.subrange(0, i) + path.subrange(i, j));
    if st.current.len() == 0 {
        assert(st.done.flatten() + st.current =~= st.done.flatten());
        assert(st1.done.flatten() =~= st.done.flatten() + token);
    } else {
        assert(st.done.push(st.current).flatten() =~= st.done.flatten() + st.current);
        assert(st1.done.flatten() =~= st.done.flatten() + st.current + token);
    }
    assert(st1.done.flatten() + st1.current =~= st1.done.flatten());
}

proof fn lemma_with_byte(path: Seq<u8>, i: int, st: SplitState)
    requires
        split_invariant(path, i, st),
        i < path.len(),
    ensures
        split_invariant(path, i + 1, with_byte(st, path[i])),
{
    assert(path.subrange(0, i + 1) =~= path.subrange(0, i).push(path[i]));
    assert(st.done.flatten() + st.current.push(path[i]) =~= (st.done.flatten() + st.current).push(path[i]));
}

proof fn lemma_split_step(path: Seq<u8>, i: int, st: SplitState)
    requires
        split_invariant(path, i, st),
        i < path.len(),
    ensures
        i < split_step(path, i, st).0 <= path.len(),
        split_invariant(path, split_step(path, i, st).0, split_step(path, i, st).1),
{
    let c = path[i];
    let j = i + 1;
    lemma_with_byte(path, i, st);
    match st.quote {
        Some(q) => {},
        None => {
            if c == 91u8 {
                if st.brackets == 0 {
                    assert(path.subrange(i, j) =~= seq![91u8]);
                    lemma_with_token(path, i, j, st, seq![91u8]);
                }
            } else if c == 93u8 {
                if st.brackets - 1 == 0 {
                    assert(path.subrange(i, j) =~= seq![93u8]);
                    lemma_with_token(path, i, j, st, seq![93u8]);
                }
            } else if c == 39u8 || c == 34u8 {
            } else if c == 58u8 && st.brackets == 0 && byte_at(path, j) == Some(58u8) {
                if byte_at(path, j + 1) == Some(36u8) {
                    assert(path.subrange(i, j + 2) =~= seq![58u8, 58u8, 36u8]);
                    lemma_with_token(path, i, j + 2, st, seq![58u8, 58u8, 36u8]);
                }
            } else if c == 45u8 && st.brackets == 0 && byte_at(path, j) == Some(62u8) {
                assert(path.subrange(i, j + 1) =~= seq![45u8, 62u8]);
                lemma_with_token(path, i, j + 1, st, seq![45u8, 62u8]);
            }
        },
    }
}

proof fn lemma_split_from(path: Seq<u8>, i: int, st: SplitState)
    requires
        split_invariant(path, i, st),
    ensures
        split_invariant(path, path.len() as int, split_from(path, i, st)),
    decreases path.len() - i,
{
    if i < path.len() {
        lemma_split_step(path, i, st);
        let (j, st1) = split_step(path, i, st);
        lemma_split_from(path, j, st1);
    } else {
        assert(path.subrange(0, i) =~= path);
    }
}

/// Splitting loses no byte and adds none: the parts of a path, put back
/// together in order, spell the path. A path that is not empty has at least
/// one part, and none of its parts is empty.
pub proof fn lemma_parts_spell_path(path: Seq<u8>)
    ensures
        split_path(path).flatten() == path,
        path.len() > 0 ==> split_path(path).len() > 0,
        path.len() > 0 ==> forall|k: int| 0 <= k < split_path(path).len() ==> #[trigger] split_path(path)[k].len() > 0,
{
    broadcast use Seq::lemma_flatten_push;
    if path.len() == 0 {
        assert(split_path(path) =~= seq![Seq::<u8>::empty()]);
        assert(seq![Seq::<u8>::empty()].flatten() =~= Seq::<u8>::empty().add(Seq::<Seq<u8>>::empty().flatten()));
        assert(split_path(path).flatten() =~= path);
    } else {
        let init = initial_split_state();
        assert(init.done.flatten() + init.current =~= path.subrange(0, 0));
        lemma_split_from(path, 0, init);
        let st = split_from(path, 0, init);
        assert(path.subrange(0, path.len() as int) =~= path);
        if st.current.len() == 0 {
            assert(st.done.flatten() + st.current =~= st.done.flatten());
            if st.done.len() == 0 {
                assert(st.done.flatten() =~= Seq::<u8>::empty());
            }
        } else {
            assert(st.done.push(st.current).flatten() =~= st.done.flatten() + st.current);
        }
    }
}

pub open spec fn part_views(parts: Seq<Vec<u8>>) -> Seq<Seq<u8>> {
    Seq::new(parts.len(), |k: int| parts[k]@)
}

proof fn lemma_part_views_push(parts: Seq<Vec<u8>>, v: Vec<u8>)
    ensures
        part_views(parts.push(v)) == part_views(parts).push(v@),
{
    assert(part_views(parts.push(v)) =~= part_views(parts).push(v@));
}

/// A part made of the given divider bytes.
fn divider(a: u8, b: Option<u8>, c: Option<u8>) -> (v: Vec<u8>)
    ensures
        v@ == (match (b, c) {
            (Some(b), Some(c)) => seq![a, b, c],
            (Some(b), None) => seq![a, b],
            _ => seq![a],
        }),
{
    let mut v: Vec<u8> = Vec::new();
    v.push(a);
    match (b, c) {
        (Some(b), Some(c)) => {
            v.push(b);
            v.push(c);
            assert(v@ =~= seq![a, b, c]);
        },
        (Some(b), None) => {
            v.push(b);
            assert(v@ =~= seq![a, b]);
        },
        _ => {
            assert(v@ =~= seq![a]);
        },
    }
    v
}

/// Breaks an access path into its parts: the root, the dividers `[`, `]`, `->`
/// and `::$`, and the keys and property names between them. Dividers inside
/// brackets or inside quoted strings stay part of the key.
pub fn break_up_path_into_parts(path: &[u8]) -> (parts: Vec<Vec<u8>>)
    ensures
        part_views(parts@) == split_path(path@),
{
    if path.len() == 0 {
        let mut parts: Vec<Vec<u8>> = Vec::new();
        parts.push(Vec::new());
        assert(part_views(parts@) =~= split_path(path@));
        return parts;
    }
    let mut done: Vec<Vec<u8>> = Vec::new();
    let mut current: Vec<u8> = Vec::new();
    let mut string_char: Option<u8> = None;
    let mut escape_char = false;
    let mut brackets: i128 = 0;
    let ghost target = split_from(path@, 0, initial_split_state());
    assert(part_views(done@) =~= Seq::<Seq<u8>>::empty());

    let mut i: usize = 0;
    while i < path.len()
        invariant
            i <= path.len(),
            -(i as int) <= brackets <= i as int,
            split_from(
                path@,
                i as int,
                SplitState {
                    done: part_views(done@),
                    current: current@,
                    quote: string_char,
                    escape: escape_char,
                    brackets: brackets as int,
                },
            ) == target,
        decreases path.len() - i,
    {
        let ghost st = SplitState {
            done: part_views(done@),
            current: current@,
            quote: string_char,
            escape: escape_char,
            brackets: brackets as int,
        };
        let ghost step = split_step(path@, i as int, st);
        let c = path[i];
        i += 1;
        if let Some(quote) = string_char {
            current.push(c);
            if c == quote && !escape_char {
                string_char = None;
            }
            escape_char = c == 92u8 && !escape_char;
        } else {
            let mut token: Option<Vec<u8>> = None;
            if c == 91u8 {
                if brackets == 0 {
                    token = Some(divider(91u8, None, None));
                } else {
                    current.push(c);
                }
                brackets += 1;
            } else if c == 93u8 {
                brackets -= 1;
                if brackets == 0 {
                    token = Some(divider(93u8, None, None));
                } else {
                    current.push(c);
                }
            } else if c == 39u8 || c == 34u8 {
                string_char = Some(c);
                current.push(c);
            } else if c == 58u8 && brackets == 0 && i < path.len() && path[i] == 58u8 {
                if i + 1 < path.len() && path[i + 1] == 36u8 {
                    i += 2;
                    token = Some(divider(58u8, Some(58u8), Some(36u8)));
                } else {
                    current.push(c);
                }
            } else if c == 45u8 && brackets == 0 && i < path.len() && path[i] == 62u8 {
                i += 1;
                token = Some(divider(45u8, Some(62u8), None));
            } else {
                current.push(c);
            }
            if let Some(tv) = token {
                if current.len() == 0 {
                    proof { lemma_part_views_push(done@, tv); }
                    done.push(tv);

                } else {
                    let finished = current;
                    proof { lemma_part_views_push(done@, finished); }
                    done.push(finished);
                    proof { lemma_part_views_push(done@, tv); }
                    done.push(tv);
                    current = Vec::new();
                }
            }
        }
        assert(part_views(done@) =~= step.1.done);
        assert(current@ =~= step.1.current);
    }
    let mut parts = done;
    if current.len() != 0 {
        proof { lemma_part_views_push(parts@, current); }
        parts.push(current);
    }
    assert(part_views(parts@) =~= split_path(path@));
    parts
}


/// The bytes of `key` after its first part (its root).
pub open spec fn after_root(key: Seq<u8>) -> Seq<u8> {
    key.skip(split_path(key)[0].len() as int)
}

proof fn lemma_rest_of_parts(key: Seq<u8>)
    ensures
        split_path(key).len() > 0,
        split_path(key).drop_first().flatten() == after_root(key),
{
    lemma_parts_spell_path(key);
    let parts = split_path(key);
    if key.len() == 0 {
        assert(parts =~= seq![Seq::<u8>::empty()]);
    }
    assert(parts.flatten() == parts.first() + parts.drop_first().flatten());
    assert(parts.drop_first().flatten() =~= key.skip(parts[0].len() as int));
}

/// The key that names the same place as `key` from another root variable:
/// the root of `key` replaced by `root`, the rest kept as it is.
pub fn rerooted_key(key: &[u8], root: &[u8]) -> (r: Vec<u8>)
    ensures
        r@ == root@ + after_root(key@),
{
    broadcast use Seq::lemma_flatten_push;
    let parts = break_up_path_into_parts(key);
    proof {
        lemma_rest_of_parts(key@);
    }
    let ghost views = part_views(parts@);
    let mut r: Vec<u8> = Vec::new();
    let mut b: usize = 0;
    while b < root.len()
        invariant
            b <= root.len(),
            r@ == root@.take(b as int),
        decreases root.len() - b,
    {
        r.push(root[b]);
        assert(r@ =~= root@.take((b + 1) as int));
        b = b + 1;
    }
    assert(root@.take(root.len() as int) =~= root@);
    let mut k: usize = 1;
    while k < parts.len()
        invariant
            1 <= k <= parts.len(),
            views == part_views(parts@),
            views.len() == parts@.len(),
            r@ == root@ + views.subrange(1, k as int).flatten(),
        decreases parts.len() - k,
    {
        let part = &parts[k];
        let ghost before = r@;
        let mut j: usize = 0;
        while j < part.len()
            invariant
                j <= part.len(),
                r@ == before + part@.take(j as int),
            decreases part.len() - j,
        {
            r.push(part[j]);
            assert(r@ =~= before + part@.take((j + 1) as int));
            j = j + 1;
        }
        proof {
            assert(part@.take(part.len() as int) =~= part@);
            assert(views.subrange(1, (k + 1) as int) =~= views.subrange(1, k as int).push(views[k as int]));
            views.subrange(1, k as int).lemma_flatten_push(views[k as int]);
            assert(views[k as int] == part@);
            assert(r@ =~= root@ + views.subrange(1, (k + 1) as int).flatten());
        }
        k = k + 1;
    }
    proof {
        assert(views.subrange(1, views.len() as int) =~= views.drop_first());
    }
    r
}

pub open spec fn open_part() -> Seq<u8> {
    seq![91u8]
}

pub open spec fn close_part() -> Seq<u8> {
    seq![93u8]
}

/// Every `[` part that is followed by other parts is followed by its `]`
/// part directly, or after exactly one part (the key); a `[` part left
/// open holds at most one part after it, its key, up to the end.
pub open spec fn keys_between_brackets(parts: Seq<Seq<u8>>) -> bool {
    forall|k: int| 0 <= k && k + 1 < parts.len() && #[trigger] parts[k] == open_part()
        ==> parts[k + 1] == close_part() || k + 2 == parts.len() || parts[k + 2] == close_part()
}

/// The complete parts close every key they open.
spec fn closed_keys(done: Seq<Seq<u8>>) -> bool {
    forall|k: int| 0 <= k && k + 1 < done.len() && #[trigger] done[k] == open_part()
        ==> done[k + 1] == close_part() || (k + 2 < done.len() && done[k + 2] == close_part())
}

/// What the scanner keeps about brackets: a key is open (the last complete
/// part is `[`) exactly while the depth is positive; a part being filled
/// that is just `[` lies two brackets deep; an empty part being filled is
/// never at a negative depth; a string being read has its quote in the part.
spec fn bracket_invariant(st: SplitState) -> bool {
    &&& closed_keys(st.done)
    &&& (st.done.len() > 0 && st.done.last() == open_part()) <==> st.brackets >= 1
    &&& st.current == open_part() ==> st.brackets >= 2
    &&& st.current.len() == 0 ==> st.brackets >= 0
    &&& st.quote is Some ==> st.current.len() > 0
}

proof fn lemma_token_after_closed(done: Seq<Seq<u8>>, current: Seq<u8>, token: Seq<u8>)
    requires
        closed_keys(done),
        current != open_part(),
        !(done.len() > 0 && done.last() == open_part()),
    ensures
        closed_keys(if current.len() == 0 { done.push(token) } else { done.push(current).push(token) }),
{
    let d = if current.len() == 0 { done.push(token) } else { done.push(current).push(token) };
    assert forall|k: int| 0 <= k && k + 1 < d.len() && #[trigger] d[k] == open_part()
        implies d[k + 1] == close_part() || (k + 2 < d.len() && d[k + 2] == close_part()) by {
        if k < done.len() {
            assert(d[k] == done[k]);
            assert(k + 1 < done.len());
            assert(d[k + 1] == done[k + 1]);
            if k + 2 < done.len() {
                assert(d[k + 2] == done[k + 2]);
            }
        } else {
            assert(d[k] == current);
        }
    }
}

proof fn lemma_token_closing_key(done: Seq<Seq<u8>>, current: Seq<u8>)
    requires
        closed_keys(done),
        current != open_part(),
        done.len() > 0 && done.last() == open_part(),
    ensures
        closed_keys(if current.len() == 0 { done.push(close_part()) } else { done.push(current).push(close_part()) }),
{
    let d = if current.len() == 0 { done.push(close_part()) } else { done.push(current).push(close_part()) };
    assert forall|k: int| 0 <= k && k + 1 < d.len() && #[trigger] d[k] == open_part()
        implies d[k + 1] == close_part() || (k + 2 < d.len() && d[k + 2] == close_part()) by {
        if k < done.len() - 1 {
            assert(d[k] == done[k]);
            assert(d[k + 1] == done[k + 1]);
            if k + 2 < done.len() {
                assert(d[k + 2] == done[k + 2]);
            }
        } else if k == done.len() - 1 {
        } else {
            assert(d[k] == current || d[k] == close_part());
            assert(close_part()[0] == 93u8);
        }
    }
}

proof fn lemma_step_keeps_brackets(path: Seq<u8>, i: int, st: SplitState)
    requires
        0 <= i < path.len(),
        bracket_invariant(st),
    ensures
        bracket_invariant(split_step(path, i, st).1),
{
    let c = path[i];
    let j = i + 1;
    let st2 = split_step(path, i, st).1;
    assert(open_part()[0] == 91u8 && open_part().len() == 1);
    assert(st.current.push(c).len() == st.current.len() + 1);
    match st.quote {
        Some(q) => {
            assert(st2.current == st.current.push(c));
            assert(st2.current.len() >= 2);
        },
        None => {
            if c == 91u8 {
                if st.brackets == 0 {
                    lemma_token_after_closed(st.done, st.current, open_part());
                } else {
                    if st.current.len() == 0 {
                        assert(st.current.push(c) =~= open_part());
                    } else {
                        assert(st.current.push(c) != open_part());
                    }
                }
            } else if c == 93u8 {
                let b = st.brackets - 1;
                if b == 0 {
                    lemma_token_closing_key(st.done, st.current);
                } else {
                    assert(st.current.push(c).last() == 93u8);
                    assert(st.current.push(c) != open_part());
                }
            } else if c == 39u8 || c == 34u8 {
                assert(st.current.push(c).last() == c);
                assert(st.current.push(c) != open_part());
            } else if c == 58u8 && st.brackets == 0 && byte_at(path, j) == Some(58u8) {
                if byte_at(path, j + 1) == Some(36u8) {
                    lemma_token_after_closed(st.done, st.current, seq![58u8, 58u8, 36u8]);
                } else {
                    assert(st.current.push(c).last() == c);
                    assert(st.current.push(c) != open_part());
                }
            } else if c == 45u8 && st.brackets == 0 && byte_at(path, j) == Some(62u8) {
                lemma_token_after_closed(st.done, st.current, seq![45u8, 62u8]);
            } else {
                assert(st.current.push(c).last() == c);
                assert(st.current.push(c) != open_part());
            }
        },
    }
}

proof fn lemma_scan_keeps_brackets(path: Seq<u8>, i: int, st: SplitState)
    requires
        bracket_invariant(st),
    ensures
        bracket_invariant(split_from(path, i, st)),
    decreases path.len() - i,
{
    if 0 <= i < path.len() {
        let (j, st1) = split_step(path, i, st);
        lemma_step_keeps_brackets(path, i, st);
        if j > i {
            lemma_scan_keeps_brackets(path, j, st1);
        }
    }
}

/// Dividers inside brackets are not split out: between a `[` part and the
/// `]` part that closes it there is at most one part, the key, so an `->`,
/// a `::$` or a nested bracket inside brackets stays in the key (and, as
/// the parts spell the path, the key is exactly the bytes between the
/// brackets).
pub proof fn lemma_dividers_inside_brackets_stay_in_key(path: Seq<u8>)
    ensures
        keys_between_brackets(split_path(path)),
{
    if path.len() > 0 {
        let st = split_from(path, 0, initial_split_state());
        assert(initial_split_state().done.len() == 0);
        assert(closed_keys(initial_split_state().done));
        assert(initial_split_state().current != open_part()) by {
            assert(initial_split_state().current.len() == 0);
        }
        lemma_scan_keeps_brackets(path, 0, initial_split_state());
        let parts = split_path(path);
        assert forall|k: int| 0 <= k && k + 1 < parts.len() && #[trigger] parts[k] == open_part()
            implies parts[k + 1] == close_part() || k + 2 == parts.len() || parts[k + 2] == close_part() by {
            if st.current.len() == 0 {
                assert(parts == st.done);
            } else {
                assert(parts == st.done.push(st.current));
                if k < st.done.len() - 1 {
                    assert(parts[k] == st.done[k]);
                    assert(parts[k + 1] == st.done[k + 1]);
                    if k + 2 < st.done.len() {
                        assert(parts[k + 2] == st.done[k + 2]);
                    }
                } else if k == st.done.len() - 1 {
                } else {
                    assert(parts[k] == st.current);
                }
            }
        }
    }
}

} // verus!

