//! Text: white space, ordering and concatenation.

use vstd::std_specs::iter::IteratorSpec;
use vstd::prelude::*;

verus! {

/// The characters with the Unicode property `White_Space`.
pub open spec fn is_white_space(c: char) -> bool {
    ||| '\u{9}' <= c <= '\u{d}'
    ||| c == ' '
    ||| c == '\u{85}'
    ||| c == '\u{a0}'
    ||| c == '\u{1680}'
    ||| '\u{2000}' <= c <= '\u{200a}'
    ||| c == '\u{2028}'
    ||| c == '\u{2029}'
    ||| c == '\u{202f}'
    ||| c == '\u{205f}'
    ||| c == '\u{3000}'
}

/// A text that holds nothing but white space (or nothing at all).
pub open spec fn is_blank(s: Seq<char>) -> bool {
    forall|i: int| 0 <= i < s.len() ==> is_white_space(#[trigger] s[i])
}

fn white_space(c: char) -> (r: bool)
    ensures
        r == is_white_space(c),
{
    ('\u{9}' <= c && c <= '\u{d}') || c == ' ' || c == '\u{85}' || c == '\u{a0}' || c == '\u{1680}'
        || ('\u{2000}' <= c && c <= '\u{200a}') || c == '\u{2028}' || c == '\u{2029}'
        || c == '\u{202f}' || c == '\u{205f}' || c == '\u{3000}'
}

/// Whether `s` is empty once white space is trimmed.
pub fn blank(s: &str) -> (r: bool)
    ensures
        r == is_blank(s@),
{
    let mut all: bool = true;
    for c in it: s.chars()
        invariant
            it.seq() == s@,
            all <==> (forall|i: int| 0 <= i < it.index() ==> is_white_space(#[trigger] s@[i])),
    {
        if !white_space(c) {
            assert(!is_white_space(s@[it.index() as int]));
            all = false;
        }
    }
    all
}

/// Lexicographic order by code point, which is the order of the UTF-8 bytes too.
pub open spec fn text_less(a: Seq<char>, b: Seq<char>) -> bool
    decreases a.len(),
{
    if b.len() == 0 {
        false
    } else if a.len() == 0 {
        true
    } else if a[0] == b[0] {
        text_less(a.drop_first(), b.drop_first())
    } else {
        a[0] < b[0]
    }
}

/// Where one text stands relative to another in `text_less`.
#[derive(Clone, Copy, PartialEq, Eq, Structural, Debug)]
pub enum Place {
    Before,
    Same,
    After,
}

/// Where one text stands to another in the order of texts.
pub open spec fn place_of(a: Seq<char>, b: Seq<char>) -> Place {
    if a == b {
        Place::Same
    } else if text_less(a, b) {
        Place::Before
    } else {
        Place::After
    }
}

/// Compares two texts by code points.
pub fn place(a: &str, b: &str) -> (r: Place)
    ensures
        r == place_of(a@, b@),
{
    let mut ys = b.chars();
    assert(a@.skip(0) =~= a@);
    assert(b@.skip(0) =~= b@);
    for c in it: a.chars()
        invariant
            it.seq() == a@,
            ys.obeys_prophetic_iter_laws(),
            it.index() <= b@.len(),
            ys.remaining() == b@.skip(it.index()),
            place_of(a@, b@) == place_of(a@.skip(it.index()), b@.skip(it.index())),
    {
        let ghost p = a@.skip(it.index());
        let ghost q = b@.skip(it.index());
        assert(p =~= seq![c] + a@.skip(it.index() + 1));
        match ys.next() {
            None => {
                return Place::After;
            },
            Some(d) => {
                assert(q =~= seq![d] + b@.skip(it.index() + 1));
                if c < d {
                    return Place::Before;
                }
                if d < c {
                    return Place::After;
                }
                assert(p.drop_first() =~= a@.skip(it.index() + 1));
                assert(q.drop_first() =~= b@.skip(it.index() + 1));
                assert(p == q <==> p.drop_first() == q.drop_first());
            },
        }
    }
    assert(a@.skip(a@.len() as int) =~= Seq::<char>::empty());
    match ys.next() {
        None => {
            assert(b@.skip(a@.len() as int) =~= Seq::<char>::empty());
            Place::Same
        },
        Some(_) => Place::Before,
    }
}

/// No text comes before itself.
pub proof fn lemma_text_less_irreflexive(a: Seq<char>)
    ensures
        !text_less(a, a),
    decreases a.len(),
{
    if a.len() > 0 {
        lemma_text_less_irreflexive(a.drop_first());
    }
}

/// The order of texts is transitive.
pub proof fn lemma_text_less_transitive(a: Seq<char>, b: Seq<char>, c: Seq<char>)
    requires
        text_less(a, b),
        text_less(b, c),
    ensures
        text_less(a, c),
    decreases a.len(),
{
    if a.len() > 0 && b.len() > 0 && c.len() > 0 && a[0] == b[0] && b[0] == c[0] {
        lemma_text_less_transitive(a.drop_first(), b.drop_first(), c.drop_first());
    }
}

/// Of two different texts one comes before the other.
pub proof fn lemma_text_less_total(a: Seq<char>, b: Seq<char>)
    ensures
        a == b || text_less(a, b) || text_less(b, a),
    decreases a.len(),
{
    if a.len() == 0 || b.len() == 0 {
        if a.len() == b.len() {
            assert(a =~= b);
        }
    } else if a[0] == b[0] {
        lemma_text_less_total(a.drop_first(), b.drop_first());
        assert(a =~= seq![a[0]] + a.drop_first());
        assert(b =~= seq![b[0]] + b.drop_first());
    }
}

/// Whether two texts are the same.
pub fn same_text(a: &str, b: &str) -> (r: bool)
    ensures
        r == (a@ == b@),
{
    match place(a, b) {
        Place::Same => true,
        _ => false,
    }
}

/// `a` followed by `b`.
pub fn glue2(a: &str, b: &str) -> (r: String)
    ensures
        r@ == a@ + b@,
{
    let mut r = a.to_owned();
    r.append(b);
    r
}

/// `a`, `b` and `c` in a row.
pub fn glue3(a: &str, b: &str, c: &str) -> (r: String)
    ensures
        r@ == a@ + b@ + c@,
{
    let mut r = a.to_owned();
    r.append(b);
    r.append(c);
    r
}

/// `a`, `b`, `c` and `d` in a row.
pub fn glue4(a: &str, b: &str, c: &str, d: &str) -> (r: String)
    ensures
        r@ == a@ + b@ + c@ + d@,
{
    let mut r = a.to_owned();
    r.append(b);
    r.append(c);
    r.append(d);
    r
}

/// The decimal digit for a number below ten.
pub open spec fn digit(n: nat) -> char {
    if n == 0 {
        '0'
    } else if n == 1 {
        '1'
    } else if n == 2 {
        '2'
    } else if n == 3 {
        '3'
    } else if n == 4 {
        '4'
    } else if n == 5 {
        '5'
    } else if n == 6 {
        '6'
    } else if n == 7 {
        '7'
    } else if n == 8 {
        '8'
    } else {
        '9'
    }
}

/// A number written in decimal, without leading zeros.
pub open spec fn decimal(n: nat) -> Seq<char>
    decreases n,
{
    if n < 10 {
        seq![digit(n)]
    } else {
        decimal(n / 10).push(digit(n % 10))
    }
}

fn digit_text(n: u128) -> (r: &'static str)
    requires
        n < 10,
    ensures
        r@ == seq![digit(n as nat)],
{
    proof {
        reveal_strlit("0");
        reveal_strlit("1");
        reveal_strlit("2");
        reveal_strlit("3");
        reveal_strlit("4");
        reveal_strlit("5");
        reveal_strlit("6");
        reveal_strlit("7");
        reveal_strlit("8");
        reveal_strlit("9");
    }
    let r: &'static str = if n == 0 {
        "0"
    } else if n == 1 {
        "1"
    } else if n == 2 {
        "2"
    } else if n == 3 {
        "3"
    } else if n == 4 {
        "4"
    } else if n == 5 {
        "5"
    } else if n == 6 {
        "6"
    } else if n == 7 {
        "7"
    } else if n == 8 {
        "8"
    } else {
        "9"
    };
    assert(r@ =~= seq![digit(n as nat)]);
    r
}

/// `n` written in decimal.
pub fn decimal_text(n: u128) -> (r: String)
    ensures
        r@ == decimal(n as nat),
    decreases n,
{
    if n < 10 {
        digit_text(n).to_owned()
    } else {
        let mut r = decimal_text(n / 10);
        r.append(digit_text(n % 10));
        assert(r@ =~= decimal(n as nat));
        r
    }
}

/// The parts in order, with `separator` between each two.
pub open spec fn join(parts: Seq<Seq<char>>, separator: Seq<char>) -> Seq<char>
    decreases parts.len(),
{
    if parts.len() == 0 {
        Seq::empty()
    } else if parts.len() == 1 {
        parts[0]
    } else {
        join(parts.drop_last(), separator) + separator + parts.last()
    }
}

/// Joining one more part puts the separator and the part behind the others.
pub proof fn lemma_join_push(parts: Seq<Seq<char>>, part: Seq<char>, separator: Seq<char>)
    ensures
        join(parts.push(part), separator) == (if parts.len() == 0 {
            part
        } else {
            join(parts, separator) + separator + part
        }),
{
    assert(parts.push(part).drop_last() =~= parts);
}

/// A text without the white space at its start.
pub open spec fn trim_start(s: Seq<char>) -> Seq<char>
    decreases s.len(),
{
    if s.len() > 0 && is_white_space(s[0]) {
        trim_start(s.drop_first())
    } else {
        s
    }
}

/// A text without the white space at its end.
pub open spec fn trim_end(s: Seq<char>) -> Seq<char>
    decreases s.len(),
{
    if s.len() > 0 && is_white_space(s.last()) {
        trim_end(s.drop_last())
    } else {
        s
    }
}

/// A text without the white space around it.
pub open spec fn trimmed(s: Seq<char>) -> Seq<char> {
    trim_end(trim_start(s))
}

proof fn lemma_trim_start(s: Seq<char>, k: int)
    requires
        0 <= k <= s.len(),
        forall|i: int| 0 <= i < k ==> is_white_space(#[trigger] s[i]),
        k < s.len() ==> !is_white_space(s[k]),
    ensures
        trim_start(s) == s.skip(k),
    decreases k,
{
    if k > 0 {
        let rest = s.drop_first();
        assert forall|i: int| 0 <= i < k - 1 implies is_white_space(#[trigger] rest[i]) by {
            assert(rest[i] == s[i + 1]);
        }
        lemma_trim_start(rest, k - 1);
        assert(rest.skip(k - 1) =~= s.skip(k));
    } else {
        assert(s.skip(0) =~= s);
    }
}

proof fn lemma_trim_end(s: Seq<char>, k: int)
    requires
        0 <= k <= s.len(),
        forall|i: int| k <= i < s.len() ==> is_white_space(#[trigger] s[i]),
        k > 0 ==> !is_white_space(s[k - 1]),
    ensures
        trim_end(s) == s.take(k),
    decreases s.len() - k,
{
    if k < s.len() {
        let rest = s.drop_last();
        lemma_trim_end(rest, k);
        assert(rest.take(k) =~= s.take(k));
    } else {
        assert(s.take(k) =~= s);
    }
}

/// The text without the white space around it.
pub fn trim<'a>(s: &'a str) -> (r: &'a str)
    ensures
        r@ == trimmed(s@),
{
    let mut start: usize = 0;
    let mut end: usize = 0;
    let mut n: usize = 0;
    let total: usize = s.unicode_len();
    for c in it: s.chars()
        invariant
            it.seq() == s@,
            n == it.index(),
            total == s@.len(),
            start <= end <= n || (end == 0 && start == n),
            end == 0 ==> start == n,
            forall|i: int| 0 <= i < start ==> is_white_space(#[trigger] s@[i]),
            forall|i: int| end <= i < n ==> is_white_space(#[trigger] s@[i]),
            end > 0 ==> start < end
                && !is_white_space(s@[start as int])
                && !is_white_space(s@[end - 1]),
    {
        if white_space(c) {
            if end == 0 {
                start = start + 1;
            }
        } else {
            end = n + 1;
        }
        n = n + 1;
    }
    if end == 0 {
        end = start;
    }
    proof {
        lemma_trim_start(s@, start as int);
        let t = s@.skip(start as int);
        let k = end - start;
        assert forall|i: int| k <= i < t.len() implies is_white_space(#[trigger] t[i]) by {
            assert(t[i] == s@[i + start]);
        }
        lemma_trim_end(t, k);
        assert(t.take(k) =~= s@.subrange(start as int, end as int));
    }
    s.substring_char(start, end)
}

/// Whether a character stands anywhere in a text.
pub fn contains_char(s: &str, wanted: char) -> (r: bool)
    ensures
        r == s@.contains(wanted),
{
    for c in it: s.chars()
        invariant
            it.seq() == s@,
            forall|i: int| 0 <= i < it.index() ==> #[trigger] s@[i] != wanted,
    {
        if c == wanted {
            assert(s@[it.index() as int] == wanted);
            return true;
        }
    }
    false
}

/// The parts in order, with `separator` between each two.
pub fn join_texts(parts: &Vec<String>, separator: &str) -> (r: String)
    ensures
        r@ == join(parts.deep_view(), separator@),
{
    let ghost views = parts.deep_view();
    let mut out = String::new();
    assert(views.take(0) =~= Seq::empty());
    assert(out@ =~= join(views.take(0), separator@));
    for i in 0..parts.len()
        invariant
            views == parts.deep_view(),
            out@ == join(views.take(i as int), separator@),
    {
        if i > 0 {
            out.append(separator);
        }
        out.append(parts[i].as_str());
        proof {
            lemma_join_push(views.take(i as int), views[i as int], separator@);
            assert(views.take(i + 1) =~= views.take(i as int).push(views[i as int]));
            assert(out@ =~= join(views.take(i + 1), separator@));
        }
    }
    assert(views.take(parts.len() as int) =~= views);
    out
}

/// A text without the slashes at its end.
pub open spec fn without_slashes(text: Seq<char>) -> Seq<char>
    decreases text.len(),
{
    if text.len() > 0 && text.last() == '/' {
        without_slashes(text.drop_last())
    } else {
        text
    }
}

/// A text without the slashes at its end.
pub fn drop_slashes(path: &str) -> (r: &str)
    ensures
        r@ == without_slashes(path@),
{
    let mut n: usize = path.unicode_len();
    let ghost text = path@;
    assert(text.take(n as int) =~= text);
    while n > 0 && path.get_char(n - 1) == '/'
        invariant
            text == path@,
            n <= text.len(),
            without_slashes(text) == without_slashes(text.take(n as int)),
        decreases n,
    {
        assert(text.take(n as int).last() == '/');
        assert(text.take(n as int).drop_last() =~= text.take(n - 1));
        n = n - 1;
    }
    proof {
        if n > 0 {
            assert(text.take(n as int).last() == text[n - 1]);
        }
        assert(without_slashes(text) == text.take(n as int));
    }
    let start = path.substring_char(0, n);
    assert(start@ =~= text.take(n as int));
    start
}

} // verus!
