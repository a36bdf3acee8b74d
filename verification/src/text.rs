//! Character-level helpers shared by the parsers of the bot: the Unicode
//! whitespace class, splitting a message into words, and substring search.
use vstd::prelude::*;
use vstd::string::*;

verus! {

/// Unicode `White_Space`, the class that `char::is_whitespace` tests.
pub open spec fn is_ws(c: char) -> bool {
    let u = c as u32;
    ||| 0x09 <= u <= 0x0d
    ||| u == 0x20
    ||| u == 0x85
    ||| u == 0xa0
    ||| u == 0x1680
    ||| 0x2000 <= u <= 0x200a
    ||| u == 0x2028
    ||| u == 0x2029
    ||| u == 0x202f
    ||| u == 0x205f
    ||| u == 0x3000
}

/// Whether `c` is whitespace in the sense of `char::is_whitespace`.
pub fn is_whitespace(c: char) -> (r: bool)
    ensures
        r == is_ws(c),
{
    let u = c as u32;
    (0x09 <= u && u <= 0x0d) || u == 0x20 || u == 0x85 || u == 0xa0 || u == 0x1680 || (0x2000
        <= u && u <= 0x200a) || u == 0x2028 || u == 0x2029 || u == 0x202f || u == 0x205f || u
        == 0x3000
}

/// The maximal runs of non-whitespace characters of `s`, in order
/// (what `str::split_whitespace` yields).
pub open spec fn words(s: Seq<char>) -> Seq<Seq<char>>
    decreases s.len(),
{
    if s.len() == 0 {
        seq![]
    } else {
        let prev = words(s.drop_last());
        let c = s.last();
        if is_ws(c) {
            prev
        } else if s.len() > 1 && !is_ws(s[s.len() - 2]) {
            prev.drop_last().push(prev.last().push(c))
        } else {
            prev.push(seq![c])
        }
    }
}

/// The words of a sequence laid end to end.
pub open spec fn concat_all(ws: Seq<Seq<char>>) -> Seq<char>
    decreases ws.len(),
{
    if ws.len() == 0 {
        seq![]
    } else {
        concat_all(ws.drop_last()) + ws.last()
    }
}

/// `s` with every whitespace character taken out.
pub open spec fn without_ws(s: Seq<char>) -> Seq<char>
    decreases s.len(),
{
    if s.len() == 0 {
        seq![]
    } else if is_ws(s.last()) {
        without_ws(s.drop_last())
    } else {
        without_ws(s.drop_last()).push(s.last())
    }
}

/// No character of `w` is whitespace.
pub open spec fn ws_free(w: Seq<char>) -> bool {
    forall|i: int| 0 <= i < w.len() ==> !is_ws(#[trigger] w[i])
}

/// The views of a vector of strings.
pub open spec fn views(v: Seq<String>) -> Seq<Seq<char>> {
    v.map_values(|t: String| t@)
}

/// A word list never holds an empty word or a whitespace character, and laid
/// end to end its words give back the input without its whitespace.
pub proof fn lemma_words_shape(s: Seq<char>)
    ensures
        forall|k: int| 0 <= k < words(s).len() ==> #[trigger] words(s)[k].len() > 0,
        forall|k: int| 0 <= k < words(s).len() ==> ws_free(#[trigger] words(s)[k]),
        concat_all(words(s)) == without_ws(s),
        s.len() > 0 && !is_ws(s.last()) ==> words(s).len() > 0,
    decreases s.len(),
{
    if s.len() > 0 {
        let p = s.drop_last();
        lemma_words_shape(p);
        let prev = words(p);
        let c = s.last();
        if is_ws(c) {
        } else if s.len() > 1 && !is_ws(s[s.len() - 2]) {
            assert(p.last() == s[s.len() - 2]);
            let w = prev.last().push(c);
            let nw = prev.drop_last().push(w);
            assert(nw.drop_last() =~= prev.drop_last());
            assert(prev =~= prev.drop_last().push(prev.last()));
            assert(concat_all(nw) =~= concat_all(prev.drop_last()) + w);
            assert(concat_all(prev) =~= concat_all(prev.drop_last()) + prev.last());
            assert(concat_all(nw) =~= concat_all(prev).push(c));
            assert forall|k: int| 0 <= k < nw.len() implies ws_free(#[trigger] nw[k]) by {
                if k < nw.len() - 1 {
                    assert(nw[k] == prev[k]);
                } else {
                    assert forall|i: int| 0 <= i < w.len() implies !is_ws(#[trigger] w[i]) by {
                        if i < w.len() - 1 {
                            assert(w[i] == prev.last()[i]);
                        }
                    }
                }
            }
            assert forall|k: int| 0 <= k < nw.len() implies #[trigger] nw[k].len() > 0 by {
                if k < nw.len() - 1 {
                    assert(nw[k] == prev[k]);
                }
            }
        } else {
            let nw = prev.push(seq![c]);
            assert(nw.drop_last() =~= prev);
            assert(concat_all(nw) =~= concat_all(prev) + seq![c]);
            assert forall|k: int| 0 <= k < nw.len() implies ws_free(#[trigger] nw[k]) by {
                if k < nw.len() - 1 {
                    assert(nw[k] == prev[k]);
                }
            }
            assert forall|k: int| 0 <= k < nw.len() implies #[trigger] nw[k].len() > 0 by {
                if k < nw.len() - 1 {
                    assert(nw[k] == prev[k]);
                }
            }
        }
    }
}

/// Taking the whitespace out works character by character: a whitespace
/// character goes, any other stays, and a concatenation gives the
/// concatenation of the parts.
pub proof fn lemma_without_ws(a: Seq<char>, b: Seq<char>, c: char)
    ensures
        without_ws(seq![]) == Seq::<char>::empty(),
        is_ws(c) ==> without_ws(seq![c]) == Seq::<char>::empty(),
        !is_ws(c) ==> without_ws(seq![c]) == seq![c],
        without_ws(a + b) == without_ws(a) + without_ws(b),
    decreases b.len(),
{
    assert(seq![c].drop_last() =~= Seq::<char>::empty());
    assert(without_ws(Seq::<char>::empty()) =~= Seq::<char>::empty());
    if !is_ws(c) {
        assert(without_ws(seq![c]) =~= seq![c]);
    }
    if b.len() == 0 {
        assert(a + b =~= a);
    } else {
        lemma_without_ws(a, b.drop_last(), c);
        assert((a + b).drop_last() =~= a + b.drop_last());
        assert((a + b).last() == b.last());
    }
}

/// Whitespace separates words: the words of `a`, a whitespace character,
/// then `b` are the words of `a` followed by the words of `b`.
pub proof fn lemma_words_split(a: Seq<char>, c: char, b: Seq<char>)
    requires
        is_ws(c),
    ensures
        words(a.push(c) + b) == words(a) + words(b),
    decreases b.len(),
{
    let ac = a.push(c);
    if b.len() == 0 {
        assert(ac + b =~= ac);
        assert(ac.drop_last() =~= a);
        assert(words(a) + words(b) =~= words(a));
    } else {
        let b1 = b.drop_last();
        let x = b.last();
        lemma_words_split(a, c, b1);
        let full = ac + b;
        assert(full.drop_last() =~= ac + b1);
        assert(full.last() == x);
        let prev = words(ac + b1);
        assert(prev == words(a) + words(b1));
        if is_ws(x) {
        } else if b1.len() > 0 && !is_ws(b1.last()) {
            assert(full[full.len() - 2] == b1.last());
            lemma_words_shape(b1);
            assert(words(b1).len() > 0);
            assert(prev.last() == words(b1).last());
            assert(prev.drop_last() =~= words(a) + words(b1).drop_last());
            assert(words(b) == words(b1).drop_last().push(words(b1).last().push(x)));
            assert(words(full) =~= words(a) + words(b));
        } else {
            if b1.len() == 0 {
                assert(full[full.len() - 2] == c);
                assert(b1 =~= seq![]);
            } else {
                assert(full[full.len() - 2] == b1.last());
            }
            assert(words(b) == words(b1).push(seq![x]));
            assert(words(full) =~= words(a) + words(b));
        }
    }
}

/// A non-empty word without whitespace is its own only word.
pub proof fn lemma_words_single(w: Seq<char>)
    requires
        w.len() > 0,
        ws_free(w),
    ensures
        words(w) == seq![w],
    decreases w.len(),
{
    let p = w.drop_last();
    assert(!is_ws(w[w.len() - 1]));
    if p.len() == 0 {
        assert(words(p) =~= seq![]);
        assert(w =~= seq![w.last()]);
    } else {
        assert(ws_free(p)) by {
            assert forall|i: int| 0 <= i < p.len() implies !is_ws(#[trigger] p[i]) by {
                assert(p[i] == w[i]);
            }
        }
        lemma_words_single(p);
        assert(w[w.len() - 2] == p.last());
        assert(p.push(w.last()) =~= w);
    }
}

/// The characters of `s`, in order.
pub fn chars_of(s: &str) -> (r: Vec<char>)
    ensures
        r@ == s@,
{
    let mut r: Vec<char> = Vec::new();
    for c in it: s.chars()
        invariant
            r@ == it.seq().take(it.index() as int),
            it.seq() == s@,
    {
        r.push(c);
    }
    r
}

/// Appends one character to a string.
#[verifier::external_body]
pub(crate) fn push_char(s: &mut String, c: char)
    ensures
        final(s)@ == old(s)@.push(c),
{
    s.push(c);
}

/// The string made of `cs[from..to]`.
pub fn string_from_chars(cs: &Vec<char>, from: usize, to: usize) -> (r: String)
    requires
        from <= to <= cs@.len(),
    ensures
        r@ == cs@.subrange(from as int, to as int),
{
    let mut r = String::new();
    let mut i = from;
    while i < to
        invariant
            from <= i <= to <= cs@.len(),
            r@ == cs@.subrange(from as int, i as int),
        decreases to - i,
    {
        push_char(&mut r, cs[i]);
        assert(cs@.subrange(from as int, i + 1) =~= cs@.subrange(from as int, i as int).push(
            cs@[i as int],
        ));
        i = i + 1;
    }
    r
}

/// The words of `cs[from..]`, as `str::split_whitespace` yields them.
pub fn words_of(cs: &Vec<char>, from: usize) -> (r: Vec<String>)
    requires
        from <= cs@.len(),
    ensures
        views(r@) == words(cs@.subrange(from as int, cs@.len() as int)),
{
    let ghost s = cs@.subrange(from as int, cs@.len() as int);
    let n = cs.len();
    let mut out: Vec<String> = Vec::new();
    let mut start: Option<usize> = None;
    let mut i = from;
    while i < n
        invariant
            n == cs@.len(),
            from <= i <= n,
            s == cs@.subrange(from as int, n as int),
            match start {
                None => views(out@) == words(s.take(i - from)) && (i == from || is_ws(
                    cs@[i - 1],
                )),
                Some(st) => from <= st < i && views(out@).push(cs@.subrange(st as int, i as int))
                    == words(s.take(i - from)) && !is_ws(cs@[i - 1]),
            },
        decreases n - i,
    {
        let c = cs[i];
        let ghost pre = s.take(i - from);
        let ghost cur = s.take(i + 1 - from);
        assert(cur.drop_last() =~= pre);
        assert(cur.last() == c);
        if is_whitespace(c) {
            match start {
                Some(st) => {
                    let w = string_from_chars(cs, st, i);
                    let ghost before = out@;
                    out.push(w);
                    assert(views(out@) =~= views(before).push(w@));
                },
                None => {},
            }
            start = None;
        } else {
            match start {
                Some(st) => {
                    assert(cur.len() > 1);
                    assert(cur[cur.len() - 2] == cs@[i - 1]);
                    assert(cs@.subrange(st as int, i + 1) =~= cs@.subrange(st as int, i as int).push(c));
                },
                None => {
                    start = Some(i);
                    if i > from {
                        assert(cur[cur.len() - 2] == cs@[i - 1]);
                    }
                    assert(cs@.subrange(i as int, i + 1) =~= seq![c]);
                },
            }
        }
        i = i + 1;
    }
    assert(s.take(n - from) =~= s);
    match start {
        Some(st) => {
            let w = string_from_chars(cs, st, n);
            let ghost before = out@;
            out.push(w);
            assert(views(out@) =~= views(before).push(w@));
        },
        None => {},
    }
    out
}

/// `pat` occurs in `s` at position `i`.
pub open spec fn occurs_at(s: Seq<char>, pat: Seq<char>, i: int) -> bool {
    0 <= i && i + pat.len() <= s.len() && s.subrange(i, i + pat.len()) == pat
}

/// The first position at or after `from` where `pat` occurs in `s`.
pub open spec fn find_from(s: Seq<char>, pat: Seq<char>, from: int) -> Option<int>
    decreases s.len() + 1 - from,
{
    if from < 0 || from + pat.len() > s.len() {
        None
    } else if occurs_at(s, pat, from) {
        Some(from)
    } else {
        find_from(s, pat, from + 1)
    }
}

/// The first position where `pat` occurs in `s` (`str::find`, counted in
/// characters).
pub open spec fn find_spec(s: Seq<char>, pat: Seq<char>) -> Option<int> {
    find_from(s, pat, 0)
}

/// What `find_from` returns is an occurrence, and there is none before it.
pub proof fn lemma_find_from(s: Seq<char>, pat: Seq<char>, from: int)
    requires
        0 <= from,
    ensures
        match find_from(s, pat, from) {
            Some(i) => from <= i && occurs_at(s, pat, i) && forall|j: int|
                from <= j < i ==> !occurs_at(s, pat, j),
            None => forall|j: int| from <= j ==> !occurs_at(s, pat, j),
        },
    decreases s.len() + 1 - from,
{
    if from + pat.len() <= s.len() && !occurs_at(s, pat, from) {
        lemma_find_from(s, pat, from + 1);
    }
}

/// Whether `pat` occurs in `cs` at `i`.
fn matches_at(cs: &Vec<char>, pat: &Vec<char>, i: usize) -> (r: bool)
    requires
        i + pat@.len() <= cs@.len(),
    ensures
        r == occurs_at(cs@, pat@, i as int),
{
    let n = cs.len();
    let mut k: usize = 0;
    while k < pat.len()
        invariant
            n == cs@.len(),
            i + pat@.len() <= cs@.len(),
            k <= pat@.len(),
            forall|j: int| 0 <= j < k ==> cs@[i + j] == pat@[j],
        decreases pat.len() - k,
    {
        assert(i + k < cs@.len());
        if cs[i + k] != pat[k] {
            assert(cs@.subrange(i as int, i + pat@.len())[k as int] != pat@[k as int]);
            return false;
        }
        k = k + 1;
    }
    assert(cs@.subrange(i as int, i + pat@.len()) =~= pat@);
    true
}

/// The first position at or after `from` where `pat` occurs in `cs`.
pub fn find_in(cs: &Vec<char>, pat: &Vec<char>, from: usize) -> (r: Option<usize>)
    ensures
        match r {
            Some(i) => find_from(cs@, pat@, from as int) == Some(i as int),
            None => find_from(cs@, pat@, from as int) is None,
        },
{
    if pat.len() > cs.len() {
        return None;
    }
    let last = cs.len() - pat.len();
    let mut i = from;
    while i <= last
        invariant
            last + pat@.len() == cs@.len(),
            from <= i,
            find_from(cs@, pat@, from as int) == find_from(cs@, pat@, i as int),
        decreases last + 1 - i,
    {
        if matches_at(cs, pat, i) {
            return Some(i);
        }
        if i == last {
            return None;
        }
        i = i + 1;
    }
    None
}

} // verus!
