//! A model of Unix path text: how a path splits into components, and its
//! file name, stem and extension, the way `std::path::Path` reads them.

use vstd::prelude::*;

verus! {

/// The pieces of `p` between slashes, empty pieces included.
pub open spec fn split_slash(p: Seq<char>) -> Seq<Seq<char>>
    decreases p.len(),
{
    if p.len() == 0 {
        seq![Seq::empty()]
    } else {
        let init = split_slash(p.drop_last());
        if p.last() == '/' {
            init.push(Seq::empty())
        } else {
            init.update(init.len() - 1, init.last().push(p.last()))
        }
    }
}

pub open spec fn is_absolute(p: Seq<char>) -> bool {
    p.len() > 0 && p[0] == '/'
}

pub open spec fn dot() -> Seq<char> {
    seq!['.']
}

pub open spec fn dot_dot() -> Seq<char> {
    seq!['.', '.']
}

pub open spec fn root() -> Seq<char> {
    seq!['/']
}

/// Whether a piece between slashes is a component: empty pieces never are,
/// and `.` only as the first piece of a relative path.
pub open spec fn kept(piece: Seq<char>, first: bool, absolute: bool) -> bool {
    piece.len() > 0 && (piece != dot() || (first && !absolute))
}

pub open spec fn kept_pieces(raw: Seq<Seq<char>>, absolute: bool) -> Seq<Seq<char>>
    decreases raw.len(),
{
    if raw.len() == 0 {
        Seq::empty()
    } else {
        let rest = kept_pieces(raw.drop_last(), absolute);
        if kept(raw.last(), raw.len() == 1, absolute) {
            rest.push(raw.last())
        } else {
            rest
        }
    }
}

/// The components of `p`: the root `/` for an absolute path, then each
/// piece that `kept` admits.
pub open spec fn components(p: Seq<char>) -> Seq<Seq<char>> {
    let head = if is_absolute(p) {
        seq![root()]
    } else {
        Seq::empty()
    };
    head + kept_pieces(split_slash(p), is_absolute(p))
}

/// A component that names an entry: not the root, `.` or `..`.
pub open spec fn is_name(c: Seq<char>) -> bool {
    c != root() && c != dot() && c != dot_dot()
}

pub open spec fn file_name(p: Seq<char>) -> Option<Seq<char>> {
    let cs = components(p);
    if cs.len() > 0 && is_name(cs.last()) {
        Some(cs.last())
    } else {
        None
    }
}

/// Index of the last `.` in `n`, or -1.
pub open spec fn last_dot(n: Seq<char>) -> int
    decreases n.len(),
{
    if n.len() == 0 {
        -1
    } else if n.last() == '.' {
        n.len() - 1
    } else {
        last_dot(n.drop_last())
    }
}

/// The stem of a file name: the part before its last `.`, unless that dot
/// leads the name or there is none.
pub open spec fn name_stem(n: Seq<char>) -> Seq<char> {
    if last_dot(n) <= 0 {
        n
    } else {
        n.take(last_dot(n))
    }
}

pub open spec fn name_extension(n: Seq<char>) -> Option<Seq<char>> {
    if last_dot(n) <= 0 {
        None
    } else {
        Some(n.skip(last_dot(n) + 1))
    }
}

pub open spec fn file_stem(p: Seq<char>) -> Option<Seq<char>> {
    match file_name(p) {
        Some(n) => Some(name_stem(n)),
        None => None,
    }
}

pub open spec fn extension(p: Seq<char>) -> Option<Seq<char>> {
    match file_name(p) {
        Some(n) => name_extension(n),
        None => None,
    }
}

proof fn lemma_split_nonempty(p: Seq<char>)
    ensures
        split_slash(p).len() >= 1,
    decreases p.len(),
{
    if p.len() > 0 {
        lemma_split_nonempty(p.drop_last());
    }
}

/// The characters of `s`, one by one.
pub fn chars_of(s: &str) -> (r: Vec<char>)
    ensures
        r@ == s@,
{
    let mut r: Vec<char> = Vec::new();
    for c in it: s.chars()
        invariant
            r@ == it.seq().take(it.index() as int),
    {
        r.push(c);
    }
    r
}


/// The character sequences held by a list of character vectors.
pub open spec fn char_views(v: Seq<Vec<char>>) -> Seq<Seq<char>> {
    v.map_values(|x: Vec<char>| x@)
}

/// Whether `a` and `b` hold the same characters.
pub fn same_chars(a: &Vec<char>, b: &Vec<char>) -> (r: bool)
    ensures
        r == (a@ == b@),
{
    if a.len() != b.len() {
        return false;
    }
    let mut i: usize = 0;
    while i < a.len()
        invariant
            a.len() == b.len(),
            i <= a.len(),
            a@.take(i as int) == b@.take(i as int),
        decreases a.len() - i,
    {
        if a[i] != b[i] {
            return false;
        }
        assert(a@.take(i + 1) == a@.take(i as int).push(a@[i as int]));
        assert(b@.take(i + 1) == b@.take(i as int).push(b@[i as int]));
        i = i + 1;
    }
    assert(a@ == a@.take(i as int));
    assert(b@ == b@.take(i as int));
    true
}

fn is_dot(piece: &Vec<char>) -> (r: bool)
    ensures
        r == (piece@ == dot()),
{
    if piece.len() == 1 && piece[0] == '.' {
        assert(piece@ == dot());
        true
    } else {
        false
    }
}

/// The components of `p`, as `components` gives them.
pub fn components_of(p: &Vec<char>) -> (r: Vec<Vec<char>>)
    ensures
        char_views(r@) == components(p@),
{
    let absolute = p.len() > 0 && p[0] == '/';
    let mut parts: Vec<Vec<char>> = Vec::new();
    if absolute {
        let slash = vec!['/'];
        assert(slash@ == root());
        parts.push(slash);
        assert(char_views(parts@) == seq![root()]);
    } else {
        assert(char_views(parts@) == Seq::<Seq<char>>::empty());
    }
    let ghost head = char_views(parts@);
    let ghost mut closed: Seq<Seq<char>> = Seq::empty();
    let mut cur: Vec<char> = Vec::new();
    let mut n_closed: usize = 0;
    let mut i: usize = 0;
    assert(p@.take(0) == Seq::<char>::empty());
    assert(head == if is_absolute(p@) { seq![root()] } else { Seq::<Seq<char>>::empty() });
    while i < p.len()
        invariant
            i <= p.len(),
            n_closed <= i,
            n_closed == closed.len(),
            absolute == is_absolute(p@),
            head == (if is_absolute(p@) { seq![root()] } else { Seq::<Seq<char>>::empty() }),
            split_slash(p@.take(i as int)) == closed.push(cur@),
            char_views(parts@) == head + kept_pieces(closed, absolute),
        decreases p.len() - i,
    {
        let c = p[i];
        let ghost before = p@.take(i as int);
        assert(p@.take(i + 1).drop_last() == before);
        if c == '/' {
            let ghost old_closed = closed;
            proof {
                closed = closed.push(cur@);
            }
            assert(closed.drop_last() == old_closed);
            n_closed = n_closed + 1;
            if cur.len() > 0 && (!is_dot(&cur) || (n_closed == 1 && !absolute)) {
                let ghost old_parts = char_views(parts@);
                parts.push(cur);
                assert(char_views(parts@) == old_parts.push(closed.last()));
            }
            cur = Vec::new();
        } else {
            cur.push(c);
        }
        i = i + 1;
    }
    assert(p@.take(i as int) == p@);
    let ghost all = closed.push(cur@);
    assert(all.drop_last() == closed);
    if cur.len() > 0 && (!is_dot(&cur) || (n_closed == 0 && !absolute)) {
        let ghost old_parts = char_views(parts@);
        parts.push(cur);
        assert(char_views(parts@) == old_parts.push(all.last()));
    }
    parts
}


/// The characters of `v` from `from` up to `to`.
pub fn sub_chars(v: &Vec<char>, from: usize, to: usize) -> (r: Vec<char>)
    requires
        from <= to <= v.len(),
    ensures
        r@ == v@.subrange(from as int, to as int),
{
    let mut r: Vec<char> = Vec::new();
    let mut i: usize = from;
    while i < to
        invariant
            from <= i <= to <= v.len(),
            r@ == v@.subrange(from as int, i as int),
        decreases to - i,
    {
        r.push(v[i]);
        assert(v@.subrange(from as int, i + 1) == v@.subrange(from as int, i as int).push(v@[i as int]));
        i = i + 1;
    }
    r
}

/// Where the last `.` of `n` stands, if anywhere.
pub fn find_last_dot(n: &Vec<char>) -> (r: Option<usize>)
    ensures
        match r {
            Some(i) => last_dot(n@) == i && i < n.len(),
            None => last_dot(n@) == -1,
        },
{
    let mut j: usize = n.len();
    assert(n@.take(j as int) == n@);
    while j > 0
        invariant
            j <= n.len(),
            last_dot(n@) == last_dot(n@.take(j as int)),
        decreases j,
    {
        assert(n@.take(j as int).drop_last() == n@.take(j - 1));
        if n[j - 1] == '.' {
            assert(n@.take(j as int).last() == '.');
            return Some(j - 1);
        }
        j = j - 1;
    }
    None
}

/// The file name that ends the components `cs`, if it ends in one.
pub fn last_name(cs: &Vec<Vec<char>>) -> (r: Option<Vec<char>>)
    ensures
        match r {
            Some(n) => char_views(cs@).len() > 0 && is_name(char_views(cs@).last())
                && n@ == char_views(cs@).last(),
            None => !(char_views(cs@).len() > 0 && is_name(char_views(cs@).last())),
        },
{
    if cs.len() == 0 {
        return None;
    }
    let last = &cs[cs.len() - 1];
    let is_root = last.len() == 1 && last[0] == '/';
    let is_dot = last.len() == 1 && last[0] == '.';
    let is_dot_dot = last.len() == 2 && last[0] == '.' && last[1] == '.';
    assert(is_root == (last@ == root())) by {
        if last@ == root() {
            assert(last@[0] == '/');
        }
        if is_root {
            assert(last@ =~= root());
        }
    }
    assert(is_dot == (last@ == dot())) by {
        if last@ == dot() {
            assert(last@[0] == '.');
        }
        if is_dot {
            assert(last@ =~= dot());
        }
    }
    assert(is_dot_dot == (last@ == dot_dot())) by {
        if last@ == dot_dot() {
            assert(last@[0] == '.' && last@[1] == '.');
        }
        if is_dot_dot {
            assert(last@ =~= dot_dot());
        }
    }
    if is_root || is_dot || is_dot_dot {
        None
    } else {
        Some(sub_chars(last, 0, last.len()))
    }
}

/// The stem of the file name `n`.
pub fn stem_of(n: &Vec<char>) -> (r: Vec<char>)
    ensures
        r@ == name_stem(n@),
{
    match find_last_dot(n) {
        Some(d) if d > 0 => sub_chars(n, 0, d),
        _ => sub_chars(n, 0, n.len()),
    }
}

/// The extension of the file name `n`, without its dot.
pub fn extension_of(n: &Vec<char>) -> (r: Option<Vec<char>>)
    ensures
        match r {
            Some(e) => name_extension(n@) == Some(e@),
            None => name_extension(n@) is None,
        },
{
    match find_last_dot(n) {
        Some(d) if d > 0 => Some(sub_chars(n, d + 1, n.len())),
        _ => None,
    }
}


/// Whether `list` holds the characters `x`.
pub fn contains_chars(list: &Vec<Vec<char>>, x: &Vec<char>) -> (r: bool)
    ensures
        r == char_views(list@).contains(x@),
{
    let mut i: usize = 0;
    while i < list.len()
        invariant
            i <= list.len(),
            forall|j: int| 0 <= j < i ==> char_views(list@)[j] != x@,
        decreases list.len() - i,
    {
        if same_chars(&list[i], x) {
            assert(char_views(list@)[i as int] == x@);
            return true;
        }
        i = i + 1;
    }
    false
}

/// The path `p` with the piece `_` appended, as `Path::join` gives it.
pub open spec fn child_of(p: Seq<char>) -> Seq<char> {
    if p.len() == 0 {
        seq!['_']
    } else if p.last() == '/' {
        p.push('_')
    } else {
        p.push('/').push('_')
    }
}

pub fn child_path(p: &Vec<char>) -> (r: Vec<char>)
    ensures
        r@ == child_of(p@),
{
    let mut r = sub_chars(p, 0, p.len());
    assert(r@ == p@);
    if p.len() > 0 && p[p.len() - 1] != '/' {
        r.push('/');
    }
    r.push('_');
    r
}

/// Pieces joined by `/`.
pub open spec fn join_pieces(cs: Seq<Seq<char>>) -> Seq<char>
    decreases cs.len(),
{
    if cs.len() == 0 {
        Seq::empty()
    } else if cs.len() == 1 {
        cs[0]
    } else {
        join_pieces(cs.drop_last()) + seq!['/'] + cs.last()
    }
}

/// The text of a path made of the components `cs`.
pub open spec fn path_text(cs: Seq<Seq<char>>) -> Seq<char> {
    if cs.len() > 0 && cs[0] == root() {
        root() + join_pieces(cs.drop_first())
    } else {
        join_pieces(cs)
    }
}

/// `p` relative to `base`, as `Path::strip_prefix` gives it, when the
/// components of `base` begin those of `p`.
pub open spec fn relative_to(p: Seq<char>, base: Seq<char>) -> Option<Seq<char>> {
    let pc = components(p);
    let bc = components(base);
    if bc.len() <= pc.len() && pc.take(bc.len() as int) == bc {
        Some(path_text(pc.skip(bc.len() as int)))
    } else {
        None
    }
}

fn join_from(cs: &Vec<Vec<char>>, from: usize) -> (r: Vec<char>)
    requires
        from <= cs.len(),
    ensures
        r@ == join_pieces(char_views(cs@).skip(from as int)),
{
    let ghost all = char_views(cs@).skip(from as int);
    let mut r: Vec<char> = Vec::new();
    if from == cs.len() {
        return r;
    }
    let mut k: usize = from;
    while k < cs.len()
        invariant
            from <= k <= cs.len(),
            all == char_views(cs@).skip(from as int),
            r@ == join_pieces(all.take(k - from)),
        decreases cs.len() - k,
    {
        let piece = &cs[k];
        let ghost before = r@;
        if k > from {
            r.push('/');
        }
        let mut j: usize = 0;
        while j < piece.len()
            invariant
                j <= piece.len(),
                r@ == (if k > from { before.push('/') } else { before }) + piece@.take(j as int),
            decreases piece.len() - j,
        {
            r.push(piece[j]);
            assert(piece@.take(j + 1) == piece@.take(j as int).push(piece@[j as int]));
            j = j + 1;
        }
        assert(piece@.take(j as int) == piece@);
        let ghost next = all.take(k + 1 - from);
        assert(next.drop_last() == all.take(k - from));
        assert(next.last() == piece@);
        if k > from {
            assert(r@ == before + seq!['/'] + piece@);
        } else {
            assert(next.len() == 1);
            assert(r@ == next[0]);
        }
        k = k + 1;
    }
    assert(all.take(k - from) == all);
    r
}

/// The text of the components of `cs` from `from` on.
pub fn text_from(cs: &Vec<Vec<char>>, from: usize) -> (r: Vec<char>)
    requires
        from <= cs.len(),
    ensures
        r@ == path_text(char_views(cs@).skip(from as int)),
{
    let ghost rest = char_views(cs@).skip(from as int);
    if from < cs.len() && cs[from].len() == 1 && cs[from][0] == '/' {
        assert(rest[0] == root());
        assert(rest.drop_first() == char_views(cs@).skip(from + 1));
        let mut r = vec!['/'];
        let tail = join_from(cs, from + 1);
        let mut j: usize = 0;
        while j < tail.len()
            invariant
                j <= tail.len(),
                r@ == root() + tail@.take(j as int),
            decreases tail.len() - j,
        {
            r.push(tail[j]);
            assert(tail@.take(j + 1) == tail@.take(j as int).push(tail@[j as int]));
            j = j + 1;
        }
        assert(tail@.take(j as int) == tail@);
        r
    } else {
        assert(!(rest.len() > 0 && rest[0] == root())) by {
            if rest.len() > 0 && rest[0] == root() {
                assert(cs@[from as int]@ == root());
                assert(cs@[from as int]@[0] == '/');
            }
        }
        join_from(cs, from)
    }
}

/// `p` relative to `base`, if `base` begins it.
pub fn relative_path(p: &Vec<char>, base: &Vec<char>) -> (r: Option<Vec<char>>)
    ensures
        match r {
            Some(t) => relative_to(p@, base@) == Some(t@),
            None => relative_to(p@, base@) is None,
        },
{
    let pc = components_of(p);
    let bc = components_of(base);
    if bc.len() > pc.len() {
        return None;
    }
    let mut i: usize = 0;
    while i < bc.len()
        invariant
            bc.len() <= pc.len(),
            char_views(pc@) == components(p@),
            char_views(bc@) == components(base@),
            i <= bc.len(),
            char_views(pc@).take(i as int) == char_views(bc@).take(i as int),
        decreases bc.len() - i,
    {
        if !same_chars(&pc[i], &bc[i]) {
            assert(char_views(pc@)[i as int] != char_views(bc@)[i as int]);
            assert(char_views(pc@).take(bc.len() as int)[i as int] != char_views(bc@)[i as int]);
            assert(char_views(pc@).take(bc.len() as int) != char_views(bc@));
            return None;
        }
        assert(char_views(pc@).take(i + 1) == char_views(pc@).take(i as int).push(char_views(pc@)[i as int]));
        assert(char_views(bc@).take(i + 1) == char_views(bc@).take(i as int).push(char_views(bc@)[i as int]));
        i = i + 1;
    }
    assert(char_views(bc@).take(i as int) == char_views(bc@));
    Some(text_from(&pc, bc.len()))
}

} // verus!
