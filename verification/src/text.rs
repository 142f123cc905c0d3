//! Text primitives: equality, order, substring search, case folding and the
//! decimal and hexadecimal spelling of numbers.

use vstd::prelude::*;

verus! {

/// `String::push` appends one character.
pub assume_specification[ String::push ](s: &mut String, c: char)
    ensures
        final(s)@ == old(s)@.push(c),
;

/// `String::pop` removes the last character and returns it, or returns `None`
/// from an empty string.
pub assume_specification[ String::pop ](s: &mut String) -> (c: Option<char>)
    ensures
        old(s)@.len() == 0 ==> c is None && final(s)@ == old(s)@,
        old(s)@.len() > 0 ==> c == Some(old(s)@.last()) && final(s)@ == old(s)@.drop_last(),
;

/// The Unicode lowercase form of a text.
pub uninterp spec fn lowercase(text: Seq<char>) -> Seq<char>;

/// `str::to_lowercase`: the lowercase equivalent of a text, which is a function
/// of its characters alone. The lowercase of the empty text is empty.
#[verifier::external_body]
pub(crate) fn to_lowercase(s: &str) -> (r: String)
    ensures
        r@ == lowercase(s@),
        s@.len() == 0 ==> r@.len() == 0,
{
    s.to_lowercase()
}

/// A search query in lowercase; an empty one stays empty.
pub open spec fn folded(query: Seq<char>) -> Seq<char> {
    if query.len() == 0 {
        Seq::empty()
    } else {
        lowercase(query)
    }
}

/// A search query in lowercase.
pub fn fold(query: &str) -> (r: String)
    ensures
        r@ == folded(query@),
{
    let r: String = to_lowercase(query);
    assert(query@.len() == 0 ==> r@ =~= Seq::empty());
    r
}

/// The characters of `s`, in order.
pub fn chars_of(s: &str) -> (out: Vec<char>)
    ensures
        out@ == s@,
{
    let mut out: Vec<char> = Vec::new();
    for c in it: s.chars()
        invariant
            it.seq() == s@,
            out@ == s@.take(it.index()),
    {
        out.push(c);
        assert(s@.take(it.index() + 1) =~= s@.take(it.index()).push(c));
    }
    assert(s@.take(s@.len() as int) =~= s@);
    out
}

/// The text made of the first `n` of the characters `chars`.
pub fn text_of(chars: &Vec<char>, n: usize) -> (r: String)
    requires
        n <= chars@.len(),
    ensures
        r@ == chars@.take(n as int),
{
    let mut r: String = String::new();
    let mut i: usize = 0;
    assert(chars@.take(0) =~= Seq::<char>::empty());
    while i < n
        invariant
            i <= n <= chars@.len(),
            r@ == chars@.take(i as int),
        decreases n - i,
    {
        r.push(chars[i]);
        assert(chars@.take(i + 1) =~= chars@.take(i as int).push(chars@[i as int]));
        i += 1;
    }
    r
}

/// Whether two texts hold the same characters.
pub fn same(a: &str, b: &str) -> (r: bool)
    ensures
        r == (a@ == b@),
{
    let x: Vec<char> = chars_of(a);
    let y: Vec<char> = chars_of(b);
    if x.len() != y.len() {
        return false;
    }
    let mut i: usize = 0;
    while i < x.len()
        invariant
            x@ == a@,
            y@ == b@,
            x@.len() == y@.len(),
            i <= x@.len(),
            forall|j: int| 0 <= j < i ==> x@[j] == y@[j],
        decreases x@.len() - i,
    {
        if x[i] != y[i] {
            return false;
        }
        i += 1;
    }
    assert(a@ =~= b@);
    true
}

/// Whether an optional text is present and equal to `b`.
pub fn same_opt(a: Option<&str>, b: &str) -> (r: bool)
    ensures
        r == (a matches Some(x) && x@ == b@),
{
    match a {
        Some(x) => same(x, b),
        None => false,
    }
}

/// Whether `a` sorts strictly before `b`, character by character.
pub open spec fn text_before(a: Seq<char>, b: Seq<char>) -> bool
    decreases a.len(),
{
    if b.len() == 0 {
        false
    } else if a.len() == 0 {
        true
    } else if a[0] != b[0] {
        (a[0] as int) < (b[0] as int)
    } else {
        text_before(a.drop_first(), b.drop_first())
    }
}

/// No text sorts before itself.
pub proof fn text_before_irreflexive(a: Seq<char>)
    ensures
        !text_before(a, a),
    decreases a.len(),
{
    if a.len() > 0 {
        text_before_irreflexive(a.drop_first());
    }
}

/// The order of texts is transitive.
pub proof fn text_before_transitive(a: Seq<char>, b: Seq<char>, c: Seq<char>)
    requires
        text_before(a, b),
        text_before(b, c),
    ensures
        text_before(a, c),
    decreases a.len(),
{
    if a.len() > 0 && b.len() > 0 && c.len() > 0 && a[0] == b[0] && b[0] == c[0] {
        text_before_transitive(a.drop_first(), b.drop_first(), c.drop_first());
    }
}

/// Two texts of which neither sorts before the other are equal.
pub proof fn text_before_total(a: Seq<char>, b: Seq<char>)
    requires
        !text_before(a, b),
        !text_before(b, a),
    ensures
        a == b,
    decreases a.len(),
{
    if a.len() == 0 || b.len() == 0 {
        assert(a =~= b);
    } else {
        assert(a[0] as int == b[0] as int);
        text_before_total(a.drop_first(), b.drop_first());
        assert(a =~= seq![a[0]] + a.drop_first());
        assert(b =~= seq![b[0]] + b.drop_first());
    }
}

/// The first character in which two texts differ decides which sorts first: what
/// stands before it and after it does not matter.
pub proof fn the_first_difference_decides(
    head: Seq<char>,
    c: char,
    rest: Seq<char>,
    d: char,
    other: Seq<char>,
)
    requires
        c != d,
    ensures
        text_before(head.push(c) + rest, head.push(d) + other) <==> c < d,
    decreases head.len(),
{
    let a = head.push(c) + rest;
    let b = head.push(d) + other;
    if head.len() > 0 {
        let less = head.drop_first();
        the_first_difference_decides(less, c, rest, d, other);
        assert(a.drop_first() =~= less.push(c) + rest);
        assert(b.drop_first() =~= less.push(d) + other);
        assert(a[0] == b[0]);
    } else {
        assert(a[0] == c && b[0] == d);
    }
}

/// A text sorts before every longer one that begins with it.
pub proof fn a_beginning_sorts_first(head: Seq<char>, rest: Seq<char>)
    requires
        rest.len() > 0,
    ensures
        text_before(head, head + rest),
        !text_before(head + rest, head),
    decreases head.len(),
{
    if head.len() > 0 {
        a_beginning_sorts_first(head.drop_first(), rest);
        assert((head + rest).drop_first() =~= head.drop_first() + rest);
        assert((head + rest)[0] == head[0]);
    }
}

/// Whether `a` sorts strictly before `b`.
pub fn sorts_before(a: &str, b: &str) -> (r: bool)
    ensures
        r == text_before(a@, b@),
{
    let x: Vec<char> = chars_of(a);
    let y: Vec<char> = chars_of(b);
    let mut i: usize = 0;
    assert(x@.skip(0) =~= x@);
    assert(y@.skip(0) =~= y@);
    while i < x.len() && i < y.len()
        invariant
            x@ == a@,
            y@ == b@,
            i <= x@.len(),
            i <= y@.len(),
            text_before(x@, y@) == text_before(x@.skip(i as int), y@.skip(i as int)),
        decreases x@.len() - i,
    {
        assert(x@.skip(i as int).drop_first() =~= x@.skip(i + 1));
        assert(y@.skip(i as int).drop_first() =~= y@.skip(i + 1));
        if x[i] != y[i] {
            return x[i] < y[i];
        }
        i += 1;
    }
    i < y.len()
}

/// Whether `needle` occurs in `hay` as a run of adjacent characters.
pub open spec fn occurs(hay: Seq<char>, needle: Seq<char>) -> bool {
    exists|i: int| occurs_at(hay, needle, i)
}

/// Whether `needle` occurs in `hay` from position `i` on.
pub open spec fn occurs_at(hay: Seq<char>, needle: Seq<char>, i: int) -> bool {
    0 <= i && i + needle.len() <= hay.len() && hay.subrange(i, i + needle.len()) == needle
}

/// Whether `needle` occurs in `hay`.
pub fn contains(hay: &str, needle: &str) -> (r: bool)
    ensures
        r == occurs(hay@, needle@),
{
    let h: Vec<char> = chars_of(hay);
    let n: Vec<char> = chars_of(needle);
    if n.len() > h.len() {
        return false;
    }
    let total: usize = h.len();
    let last: usize = total - n.len();
    let mut i: usize = 0;
    loop
        invariant
            h@ == hay@,
            n@ == needle@,
            total == h@.len(),
            last == h@.len() - n@.len(),
            i <= last,
            forall|j: int| 0 <= j < i ==> !#[trigger] occurs_at(h@, n@, j),
        ensures
            h@ == hay@,
            n@ == needle@,
            last == h@.len() - n@.len(),
            forall|j: int| 0 <= j <= last ==> !#[trigger] occurs_at(h@, n@, j),
        decreases last - i,
    {
        let mut k: usize = 0;
        while k < n.len() && h[i + k] == n[k]
            invariant
                last == h@.len() - n@.len(),
                i <= last,
                total == h@.len(),
                k <= n@.len(),
                forall|j: int| 0 <= j < k ==> h@[i + j] == n@[j],
            decreases n@.len() - k,
        {
            k += 1;
        }
        if k == n.len() {
            assert(h@.subrange(i as int, i + n@.len()) =~= n@);
            assert(occurs_at(h@, n@, i as int));
            return true;
        }
        assert(!occurs_at(h@, n@, i as int)) by {
            if occurs_at(h@, n@, i as int) {
                assert(h@.subrange(i as int, i + n@.len())[k as int] == n@[k as int]);
            }
        }
        if i == last {
            break;
        }
        i += 1;
    }
    assert(!occurs(h@, n@)) by {
        if occurs(h@, n@) {
            let j = choose|j: int| occurs_at(h@, n@, j);
            assert(occurs_at(h@, n@, j));
        }
    }
    false
}

/// The decimal digit of `d`.
pub open spec fn digit(d: nat) -> char {
    (48 + d) as char
}

/// The decimal spelling of `n`, without leading zeros.
pub open spec fn decimal(n: nat) -> Seq<char>
    decreases n,
{
    if n < 10 {
        seq![digit(n)]
    } else {
        decimal(n / 10).push(digit(n % 10))
    }
}

/// The decimal spelling of an integer, with a leading `-` below zero.
pub open spec fn decimal_int(n: int) -> Seq<char> {
    if n < 0 {
        seq!['-'] + decimal((-n) as nat)
    } else {
        decimal(n as nat)
    }
}

/// The decimal spelling of `n`.
pub fn dec(n: u64) -> (r: String)
    ensures
        r@ == decimal(n as nat),
    decreases n,
{
    let d: u8 = (48 + n % 10) as u8;
    if n < 10 {
        let mut r: String = String::new();
        r.push(d as char);
        assert(r@ =~= decimal(n as nat));
        r
    } else {
        let mut r: String = dec(n / 10);
        r.push(d as char);
        r
    }
}

/// The decimal spelling of a signed `n`.
pub fn dec_int(n: i64) -> (r: String)
    ensures
        r@ == decimal_int(n as int),
{
    if n < 0 {
        let m: u64 = ((-(n + 1)) as u64) + 1;
        let mut r: String = String::new();
        r.push('-');
        let d: String = dec(m);
        r.append(d.as_str());
        assert(r@ =~= seq!['-'] + decimal((-n) as nat));
        r
    } else {
        dec(n as u64)
    }
}

/// `a` followed by `b`.
pub fn concat(a: &str, b: &str) -> (r: String)
    ensures
        r@ == a@ + b@,
{
    let mut r: String = a.to_owned();
    r.append(b);
    r
}

/// The text of one character.
pub fn char_text(c: char) -> (r: String)
    ensures
        r@ == seq![c],
{
    let mut r: String = String::new();
    r.push(c);
    assert(r@ =~= seq![c]);
    r
}

/// Whether a text has no characters.
pub fn is_empty(s: &str) -> (r: bool)
    ensures
        r == (s@.len() == 0),
{
    proof {
        reveal_strlit("");
        if s@.len() == 0 {
            assert(s@ =~= ""@);
        }
    }
    same(s, "")
}

/// The number that a row of digits spells.
pub open spec fn spelled(text: Seq<char>) -> int
    decreases text.len(),
{
    if text.len() == 0 {
        0
    } else {
        spelled(text.drop_last()) * 10 + (text.last() as int - '0' as int)
    }
}

/// The spelling of a number is made of the ten digits, begins with no zero but
/// that of zero itself, and spells the number.
pub proof fn a_number_is_spelled(n: nat)
    ensures
        spelled(decimal(n)) == n,
        decimal(n).len() > 0,
        decimal(n)[0] == '0' <==> n == 0,
        forall|i: int| 0 <= i < decimal(n).len() ==> '0' <= #[trigger] decimal(n)[i] <= '9',
    decreases n,
{
    if n < 10 {
        let d = decimal(n);
        assert(d.drop_last() =~= Seq::empty());
        assert(spelled(d.drop_last()) == 0);
    } else {
        a_number_is_spelled(n / 10);
        let d = decimal(n);
        assert(d.drop_last() =~= decimal(n / 10));
        assert(d[0] == decimal(n / 10)[0]);
        assert forall|i: int| 0 <= i < d.len() implies '0' <= #[trigger] d[i] <= '9' by {
            if i < d.len() - 1 {
                assert(d[i] == decimal(n / 10)[i]);
            }
        }
    }
}

/// A number below zero is spelled as that above it behind a `-`, and two numbers
/// are never spelled alike.
pub proof fn numbers_are_spelled_apart(m: int, n: int)
    ensures
        n > 0 ==> decimal_int(-n) == seq!['-'] + decimal_int(n),
        n >= 0 ==> spelled(decimal_int(n)) == n,
        m != n ==> decimal_int(m) != decimal_int(n),
{
    let size = |k: int| if k < 0 { (-k) as nat } else { k as nat };
    a_number_is_spelled(size(m));
    a_number_is_spelled(size(n));
    if m != n && decimal_int(m) == decimal_int(n) {
        let (a, b) = (decimal_int(m), decimal_int(n));
        if m < 0 && n < 0 {
            assert(a.skip(1) =~= decimal(size(m)));
            assert(b.skip(1) =~= decimal(size(n)));
        } else if m < 0 {
            assert(a[0] == '-');
        } else if n < 0 {
            assert(b[0] == '-');
        }
    }
}

} // verus!
