//! Character-level text helpers shared by the request builders, the token
//! files and the cache paths: decimal numerals, splitting at a separator,
//! splitting into lines and joining paths.

use vstd::prelude::*;

verus! {

/// Appends one character to a string (`String::push`).
#[verifier::external_body]
pub(crate) fn push_char(s: &mut String, c: char)
    ensures
        final(s)@ == old(s)@.push(c),
{
    s.push(c);
}

/// The ASCII digit for `d`, for `d < 10`.
pub open spec fn digit_char(d: nat) -> char {
    ((48 + d) as u8) as char
}

/// The decimal numeral of `n`, without sign or leading zeros.
pub open spec fn decimal(n: nat) -> Seq<char>
    decreases n,
{
    if n < 10 {
        seq![digit_char(n)]
    } else {
        decimal(n / 10).push(digit_char(n % 10))
    }
}

fn digit(d: u64) -> (c: char)
    requires
        d < 10,
    ensures
        c == digit_char(d as nat),
{
    ((48 + d) as u8) as char
}

/// Appends the decimal numeral of `n` to `s`.
pub fn push_decimal(s: &mut String, n: u64)
    ensures
        final(s)@ == old(s)@ + decimal(n as nat),
    decreases n,
{
    if n >= 10 {
        push_decimal(s, n / 10);
    }
    let d = digit(n % 10);
    push_char(s, d);
    proof {
        assert(old(s)@ + decimal(n as nat) =~= s@) by {
            if n >= 10 {
                assert(decimal(n as nat) == decimal((n / 10) as nat).push(digit_char((n % 10) as nat)));
            }
        }
    }
}

/// The characters of `s`, in order.
pub fn chars_of(s: &str) -> (r: Vec<char>)
    ensures
        r@ == s@,
{
    let mut r: Vec<char> = Vec::new();
    let n = s.unicode_len();
    for i in 0..n
        invariant
            n == s@.len(),
            r@ == s@.take(i as int),
    {
        let c = s.get_char(i);
        r.push(c);
        assert(r@ =~= s@.take(i + 1));
    }
    assert(r@ =~= s@);
    r
}

/// The string made of the characters `v[from..to]`.
pub fn string_of_range(v: &Vec<char>, from: usize, to: usize) -> (r: String)
    requires
        from <= to <= v.len(),
    ensures
        r@ == v@.subrange(from as int, to as int),
{
    let mut r = String::new();
    let mut i = from;
    while i < to
        invariant
            from <= i <= to <= v.len(),
            r@ == v@.subrange(from as int, i as int),
        decreases to - i,
    {
        push_char(&mut r, v[i]);
        i = i + 1;
        assert(r@ =~= v@.subrange(from as int, i as int));
    }
    r
}

/// `s` with one trailing carriage return removed, as `str::lines` does.
pub open spec fn strip_cr(s: Seq<char>) -> Seq<char> {
    if s.len() > 0 && s.last() == '\r' {
        s.drop_last()
    } else {
        s
    }
}

/// The position of the first `c` in `s`, or `s.len()` when there is none.
pub open spec fn first_index_of(s: Seq<char>, c: char) -> int
    decreases s.len(),
{
    if s.len() == 0 {
        0
    } else if s[0] == c {
        0
    } else {
        1 + first_index_of(s.drop_first(), c)
    }
}

/// `first_index_of` is the least position holding `c`, or the length.
pub proof fn lemma_first_index_of(s: Seq<char>, c: char)
    ensures
        0 <= first_index_of(s, c) <= s.len(),
        forall|j: int| 0 <= j < first_index_of(s, c) ==> s[j] != c,
        first_index_of(s, c) < s.len() ==> s[first_index_of(s, c)] == c,
        first_index_of(s, c) == s.len() <==> !s.contains(c),
    decreases s.len(),
{
    if s.len() > 0 && s[0] != c {
        lemma_first_index_of(s.drop_first(), c);
        assert forall|j: int| 0 <= j < first_index_of(s, c) implies s[j] != c by {
            if j > 0 {
                assert(s[j] == s.drop_first()[j - 1]);
            }
        }
        if s.contains(c) {
            let k = choose|k: int| 0 <= k < s.len() && s[k] == c;
            assert(s.drop_first()[k - 1] == c);
        }
        if s.drop_first().contains(c) {
            let k = choose|k: int| 0 <= k < s.drop_first().len() && s.drop_first()[k] == c;
            assert(s[k + 1] == c);
        }
    }
}

/// A position that satisfies the defining property is `first_index_of`.
pub proof fn lemma_first_index_unique(s: Seq<char>, c: char, k: int)
    requires
        0 <= k <= s.len(),
        forall|j: int| 0 <= j < k ==> s[j] != c,
        k == s.len() || s[k] == c,
    ensures
        k == first_index_of(s, c),
{
    lemma_first_index_of(s, c);
    let f = first_index_of(s, c);
    if f < k {
        assert(s[f] == c);
    } else if k < f {
        assert(s[k] != c);
    }
}

/// The position of the first `c` in `v[from..]`, or `v.len()`.
pub fn find_from(v: &Vec<char>, from: usize, c: char) -> (r: usize)
    requires
        from <= v.len(),
    ensures
        from <= r <= v.len(),
        r - from == first_index_of(v@.skip(from as int), c),
{
    let mut i = from;
    while i < v.len() && v[i] != c
        invariant
            from <= i <= v.len(),
            forall|j: int| from <= j < i ==> v@[j] != c,
        decreases v.len() - i,
    {
        i = i + 1;
    }
    proof {
        let t = v@.skip(from as int);
        assert forall|j: int| 0 <= j < i - from implies t[j] != c by {
            assert(t[j] == v@[j + from]);
        }
        if i < v.len() {
            assert(t[i - from] == v@[i as int]);
        }
        lemma_first_index_unique(t, c, i - from);
    }
    i
}

/// What `s.split_once(c)` gives: the text before the first `c` and the text
/// after it, or nothing when `s` holds no `c`.
pub open spec fn split_once_spec(s: Seq<char>, c: char) -> Option<(Seq<char>, Seq<char>)> {
    let i = first_index_of(s, c);
    if i < s.len() {
        Some((s.take(i), s.skip(i + 1)))
    } else {
        None
    }
}

/// Splits `s` at the first `c` (`str::split_once`).
pub fn split_once(s: &str, c: char) -> (r: Option<(String, String)>)
    ensures
        r matches Some((a, b)) ==> split_once_spec(s@, c) == Some((a@, b@)),
        r is None ==> split_once_spec(s@, c) is None,
{
    let v = chars_of(s);
    let i = find_from(&v, 0, c);
    assert(v@.skip(0) =~= v@);
    if i < v.len() {
        let a = string_of_range(&v, 0, i);
        let b = string_of_range(&v, i + 1, v.len());
        assert(a@ =~= s@.take(i as int));
        assert(b@ =~= s@.skip(i + 1));
        Some((a, b))
    } else {
        None
    }
}


/// What `s.lines()` yields: the pieces between line feeds, a piece ended by
/// a line feed without a carriage return before it, and no empty piece after
/// a final line feed.
pub open spec fn lines_of(s: Seq<char>) -> Seq<Seq<char>>
    decreases s.len(),
{
    if s.len() == 0 {
        seq![]
    } else {
        let i = first_index_of(s, '\n');
        proof {
            lemma_first_index_of(s, '\n');
        }
        if i < s.len() {
            seq![strip_cr(s.take(i))] + lines_of(s.skip(i + 1))
        } else {
            seq![s]
        }
    }
}

/// Each line followed by a line feed, one after another.
pub open spec fn join_lines(ls: Seq<Seq<char>>) -> Seq<char>
    decreases ls.len(),
{
    if ls.len() == 0 {
        seq![]
    } else {
        ls[0] + seq!['\n'] + join_lines(ls.drop_first())
    }
}

/// A line that survives being written and read back: it holds no line feed
/// and does not end in a carriage return.
pub open spec fn is_plain_line(l: Seq<char>) -> bool {
    &&& !l.contains('\n')
    &&& !(l.len() > 0 && l.last() == '\r')
}

/// Reading back lines that were written one per line gives them again.
pub proof fn lemma_lines_of_join(ls: Seq<Seq<char>>)
    requires
        forall|k: int| 0 <= k < ls.len() ==> is_plain_line(#[trigger] ls[k]),
    ensures
        lines_of(join_lines(ls)) == ls,
    decreases ls.len(),
{
    if ls.len() > 0 {
        let l0 = ls[0];
        let rest = join_lines(ls.drop_first());
        let s = join_lines(ls);
        assert(s == l0 + seq!['\n'] + rest);
        assert(is_plain_line(l0));
        assert forall|j: int| 0 <= j < l0.len() implies s[j] != '\n' by {
            assert(s[j] == l0[j]);
            if s[j] == '\n' {
                assert(l0.contains('\n'));
            }
        }
        assert(s[l0.len() as int] == '\n');
        lemma_first_index_unique(s, '\n', l0.len() as int);
        assert(s.take(l0.len() as int) =~= l0);
        assert(s.skip(l0.len() as int + 1) =~= rest);
        assert forall|k: int| 0 <= k < ls.drop_first().len() implies is_plain_line(
            #[trigger] ls.drop_first()[k],
        ) by {
            assert(ls.drop_first()[k] == ls[k + 1]);
        }
        lemma_lines_of_join(ls.drop_first());
        assert(lines_of(s) =~= seq![l0] + ls.drop_first());
        assert(ls =~= seq![l0] + ls.drop_first());
    } else {
        assert(join_lines(ls) =~= Seq::<char>::empty());
    }
}

/// The views of a list of strings.
pub open spec fn views(v: Seq<String>) -> Seq<Seq<char>> {
    v.map_values(|x: String| x@)
}

/// Splits `s` into lines (`str::lines`).
pub fn split_lines(s: &str) -> (r: Vec<String>)
    ensures
        views(r@) == lines_of(s@),
{
    let v = chars_of(s);
    let mut r: Vec<String> = Vec::new();
    let mut start: usize = 0;
    assert(v@.skip(0) =~= v@);
    while start < v.len()
        invariant
            start <= v.len(),
            v@ == s@,
            lines_of(s@) == views(r@) + lines_of(v@.skip(start as int)),
        decreases v.len() - start,
    {
        let i = find_from(&v, start, '\n');
        let ghost t = v@.skip(start as int);
        proof {
            lemma_first_index_of(t, '\n');
        }
        let mut end = i;
        if i < v.len() && end > start && v[end - 1] == '\r' {
            end = end - 1;
        }
        let line = string_of_range(&v, start, end);
        proof {
            assert(t.take(i - start) =~= v@.subrange(start as int, i as int));
            if i < v.len() {
                assert(line@ == strip_cr(t.take(i - start)));
            }
        }
        let ghost before = r@;
        r.push(line);
        proof {
            assert(views(r@) =~= views(before) + seq![line@]);
        }
        if i < v.len() {
            proof {
                assert(t.skip(i - start + 1) =~= v@.skip(i + 1));
                assert(lines_of(t) == seq![line@] + lines_of(v@.skip(i + 1)));
            }
            start = i + 1;
        } else {
            proof {
                assert(t.take(i - start) =~= t);
                assert(v@.skip(v.len() as int) =~= Seq::<char>::empty());
            }
            start = v.len();
        }
    }
    assert(v@.skip(start as int) =~= Seq::<char>::empty());
    assert(views(r@) + Seq::<Seq<char>>::empty() =~= views(r@));
    r
}


/// What `Path::new(base).join(comp)` spells on Unix: an absolute `comp`
/// replaces `base`; otherwise a separator is put between them unless `base`
/// is empty or already ends in one.
pub open spec fn path_join_spec(base: Seq<char>, comp: Seq<char>) -> Seq<char> {
    if comp.len() > 0 && comp[0] == '/' {
        comp
    } else if base.len() > 0 && base.last() != '/' {
        base + seq!['/'] + comp
    } else {
        base + comp
    }
}

/// Joins a path component onto a directory (`Path::join`).
pub fn path_join(base: &str, comp: &str) -> (r: String)
    ensures
        r@ == path_join_spec(base@, comp@),
{
    let comp_len = comp.unicode_len();
    if comp_len > 0 && comp.get_char(0) == '/' {
        return comp.to_owned();
    }
    let base_len = base.unicode_len();
    let mut r = base.to_owned();
    if base_len > 0 && base.get_char(base_len - 1) != '/' {
        push_char(&mut r, '/');
    }
    r.append(comp);
    r
}


/// Writing one more line appends it after the others.
pub proof fn lemma_join_lines_push(ls: Seq<Seq<char>>, l: Seq<char>)
    ensures
        join_lines(ls.push(l)) == join_lines(ls) + l + seq!['\n'],
    decreases ls.len(),
{
    if ls.len() == 0 {
        assert(ls.push(l).drop_first() =~= Seq::<Seq<char>>::empty());
        assert(join_lines(Seq::<Seq<char>>::empty()) =~= Seq::<char>::empty());
        assert(join_lines(ls.push(l)) =~= join_lines(ls) + l + seq!['\n']);
    } else {
        assert(ls.push(l).drop_first() =~= ls.drop_first().push(l));
        lemma_join_lines_push(ls.drop_first(), l);
        assert(join_lines(ls.push(l)) =~= join_lines(ls) + l + seq!['\n']);
    }
}


/// Reading two texts one after the other, the first empty or ending in a
/// line break, gives the lines of the first and then those of the second.
pub proof fn lemma_lines_of_append(f: Seq<char>, g: Seq<char>)
    requires
        f.len() == 0 || f.last() == '\n',
    ensures
        lines_of(f + g) == lines_of(f) + lines_of(g),
    decreases f.len(),
{
    if f.len() == 0 {
        assert(f + g =~= g);
        assert(lines_of(f) =~= Seq::<Seq<char>>::empty());
        assert(lines_of(f) + lines_of(g) =~= lines_of(g));
    } else {
        let s = f + g;
        lemma_first_index_of(f, '\n');
        let i = first_index_of(f, '\n');
        assert(f[f.len() - 1] == '\n');
        assert(f.contains('\n'));
        assert(i < f.len());
        assert forall|j: int| 0 <= j < i implies s[j] != '\n' by {
            assert(s[j] == f[j]);
        }
        assert(s[i] == f[i]);
        lemma_first_index_unique(s, '\n', i);
        assert(s.take(i) =~= f.take(i));
        let rest = f.skip(i + 1);
        assert(s.skip(i + 1) =~= rest + g);
        if rest.len() > 0 {
            assert(rest.last() == f.last());
        }
        lemma_lines_of_append(rest, g);
        assert(lines_of(s) == seq![strip_cr(f.take(i))] + lines_of(rest + g));
        assert(lines_of(f) == seq![strip_cr(f.take(i))] + lines_of(rest));
        assert(lines_of(s) =~= lines_of(f) + lines_of(g));
    }
}

} // verus!
