//! Text as sequences of characters: building, comparing and searching it.

use vstd::prelude::*;

verus! {

/// `String::push` appends one character at the end.
pub assume_specification[ String::push ](s: &mut String, c: char)
    ensures
        final(s)@ == old(s)@.push(c),
;

/// The characters of `s`.
pub fn chars_of(s: &str) -> (r: Vec<char>)
    ensures
        r@ == s@,
{
    let mut out: Vec<char> = Vec::new();
    for c in it: s.chars()
        invariant
            out@ == it.seq().take(it.index() as int),
            it.seq() == s@,
    {
        out.push(c);
        assert(out@ =~= it.seq().take(it.index() + 1));
    }
    assert(out@ =~= s@);
    out
}

/// The text made of `chars`.
pub fn string_of(chars: &[char]) -> (r: String)
    ensures
        r@ == chars@,
{
    let mut out = String::new();
    let mut i: usize = 0;
    while i < chars.len()
        invariant
            i <= chars.len(),
            out@ == chars@.take(i as int),
        decreases chars.len() - i,
    {
        out.push(chars[i]);
        assert(out@ =~= chars@.take(i + 1));
        i += 1;
    }
    assert(out@ =~= chars@);
    out
}

/// Whether two texts are the same.
pub fn same_text(a: &str, b: &str) -> (r: bool)
    ensures
        r == (a@ == b@),
{
    a.to_owned() == b.to_owned()
}

/// The concatenation of two texts.
pub fn join2(a: &str, b: &str) -> (r: String)
    ensures
        r@ == a@ + b@,
{
    let mut out = a.to_owned();
    out.append(b);
    out
}

/// The characters of an optional text.
pub open spec fn option_view(v: Option<String>) -> Option<Seq<char>> {
    match v {
        Some(s) => Some(s@),
        None => None,
    }
}

/// A copy of an optional text.
pub fn clone_option(v: &Option<String>) -> (r: Option<String>)
    ensures
        option_view(r) == option_view(*v),
{
    match v {
        Some(s) => Some(s.clone()),
        None => None,
    }
}

/// The concatenation of three texts.
pub fn join3(a: &str, b: &str, c: &str) -> (r: String)
    ensures
        r@ == a@ + b@ + c@,
{
    let ab = join2(a, b);
    join2(ab.as_str(), c)
}

/// Some text of the list is `x`.
pub open spec fn text_in(list: Seq<Seq<char>>, x: Seq<char>) -> bool {
    exists|i: int| 0 <= i < list.len() && #[trigger] list[i] == x
}

/// The texts of a list.
pub open spec fn texts(list: Seq<String>) -> Seq<Seq<char>> {
    Seq::new(list.len(), |i: int| list[i]@)
}

/// Whether `x` is one of the texts of the list.
pub fn contains_text(list: &[String], x: &str) -> (r: bool)
    ensures
        r == text_in(texts(list@), x@),
{
    let mut i: usize = 0;
    while i < list.len()
        invariant
            i <= list.len(),
            forall|j: int| 0 <= j < i ==> #[trigger] texts(list@)[j] != x@,
        decreases list.len() - i,
    {
        if same_text(list[i].as_str(), x) {
            assert(texts(list@)[i as int] == x@);
            return true;
        }
        i += 1;
    }
    false
}

/// `part` stands in `whole` at position `i`.
pub open spec fn occurs_at(whole: Seq<char>, part: Seq<char>, i: int) -> bool {
    0 <= i && i + part.len() <= whole.len() && whole.subrange(i, i + part.len()) == part
}

/// At how many of the first `n` positions of `whole` stands `part`.
pub open spec fn occurrences(whole: Seq<char>, part: Seq<char>, n: nat) -> int
    decreases n,
{
    if n == 0 {
        0
    } else {
        occurrences(whole, part, (n - 1) as nat) + if occurs_at(whole, part, n - 1) {
            1int
        } else {
            0
        }
    }
}

/// Whether `part` stands in `whole` at position `at`.
pub fn is_at(whole: &[char], part: &[char], at: usize) -> (r: bool)
    requires
        at <= whole@.len(),
    ensures
        r == occurs_at(whole@, part@, at as int),
{
    if part.len() > whole.len() - at {
        return false;
    }
    let mut i: usize = 0;
    while i < part.len()
        invariant
            i <= part.len(),
            at + part.len() <= whole.len(),
            forall|j: int| 0 <= j < i ==> whole@[at + j] == part@[j],
        decreases part.len() - i,
    {
        if whole[at + i] != part[i] {
            proof {
                let sub = whole@.subrange(at as int, at + part@.len());
                assert(sub[i as int] == whole@[at + i]);
            }
            return false;
        }
        i += 1;
    }
    assert(whole@.subrange(at as int, at + part@.len()) =~= part@);
    true
}

/// At how many positions of `whole` stands `part`.
pub fn count_occurrences(whole: &[char], part: &[char]) -> (r: usize)
    ensures
        r == occurrences(whole@, part@, whole@.len()),
{
    let mut found: usize = 0;
    let mut i: usize = 0;
    while i < whole.len()
        invariant
            i <= whole.len(),
            found <= i,
            found == occurrences(whole@, part@, i as nat),
        decreases whole.len() - i,
    {
        if is_at(whole, part, i) {
            found += 1;
        }
        i += 1;
    }
    found
}

/// `whole` begins with `prefix`.
pub open spec fn starts_with(whole: Seq<char>, prefix: Seq<char>) -> bool {
    prefix.len() <= whole.len() && whole.take(prefix.len() as int) == prefix
}

/// What follows `prefix` in `whole`, where `whole` begins with it.
pub open spec fn after_prefix(whole: Seq<char>, prefix: Seq<char>) -> Option<Seq<char>> {
    if starts_with(whole, prefix) {
        Some(whole.skip(prefix.len() as int))
    } else {
        None
    }
}

/// What follows `prefix` in `whole`, where `whole` begins with it.
pub fn strip(whole: &str, prefix: &str) -> (r: Option<String>)
    ensures
        match r {
            Some(rest) => after_prefix(whole@, prefix@) == Some(rest@),
            None => after_prefix(whole@, prefix@) is None,
        },
{
    let w = chars_of(whole);
    let p = chars_of(prefix);
    if is_at(w.as_slice(), p.as_slice(), 0) {
        assert(whole@.take(prefix@.len() as int) =~= whole@.subrange(0, prefix@.len() as int));
        let mut rest = String::new();
        let mut i: usize = p.len();
        while i < w.len()
            invariant
                p@.len() <= i <= w@.len(),
                rest@ == w@.subrange(p@.len() as int, i as int),
            decreases w.len() - i,
        {
            rest.push(w[i]);
            assert(rest@ =~= w@.subrange(p@.len() as int, i + 1));
            i += 1;
        }
        assert(rest@ =~= whole@.skip(prefix@.len() as int));
        Some(rest)
    } else {
        proof {
            if starts_with(whole@, prefix@) {
                assert(whole@.take(prefix@.len() as int) =~= whole@.subrange(
                    0,
                    prefix@.len() as int,
                ));
            }
        }
        None
    }
}

/// The decimal digit of `n`.
pub open spec fn digit(n: int) -> char {
    (48 + n) as char
}

/// The decimal text of a non-negative number.
pub open spec fn digits(n: nat) -> Seq<char>
    decreases n,
{
    if n < 10 {
        seq![digit(n as int)]
    } else {
        digits(n / 10).push(digit((n % 10) as int))
    }
}

/// The decimal text of a number.
pub open spec fn decimal(n: int) -> Seq<char> {
    if n < 0 {
        seq!['-'] + digits((-n) as nat)
    } else {
        digits(n as nat)
    }
}

fn push_digits(out: &mut String, n: u128)
    ensures
        final(out)@ == old(out)@ + digits(n as nat),
    decreases n,
{
    if n >= 10 {
        push_digits(out, n / 10);
    }
    let low: u8 = (n % 10) as u8 + 48;
    out.push(low as char);
    proof {
        if n < 10 {
            assert(old(out)@ + digits(n as nat) =~= out@);
        } else {
            assert(old(out)@ + digits(n as nat) =~= (old(out)@ + digits((n / 10) as nat)).push(
                digit((n % 10) as int),
            ));
        }
    }
}

/// The decimal text of a number.
pub fn decimal_text(n: i64) -> (r: String)
    ensures
        r@ == decimal(n as int),
{
    let mut out = String::new();
    if n < 0 {
        out.push('-');
        let magnitude: u128 = (-(n as i128)) as u128;
        push_digits(&mut out, magnitude);
        assert(out@ =~= decimal(n as int));
    } else {
        push_digits(&mut out, n as u128);
        assert(out@ =~= decimal(n as int));
    }
    out
}

/// The decimal text of a number.
pub fn decimal_text_u64(n: u64) -> (r: String)
    ensures
        r@ == decimal(n as int),
{
    let mut out = String::new();
    push_digits(&mut out, n as u128);
    assert(out@ =~= decimal(n as int));
    out
}

/// The decimal text of a number.
pub fn decimal_text_i128(n: i128) -> (r: String)
    ensures
        r@ == decimal(n as int),
{
    let mut out = String::new();
    if n < 0 {
        out.push('-');
        let magnitude: u128 = if n == i128::MIN {
            170_141_183_460_469_231_731_687_303_715_884_105_728
        } else {
            (-n) as u128
        };
        push_digits(&mut out, magnitude);
        assert(out@ =~= decimal(n as int));
    } else {
        push_digits(&mut out, n as u128);
        assert(out@ =~= decimal(n as int));
    }
    out
}

/// Non-negative numbers with the same decimal text are the same number.
pub proof fn lemma_digits_injective(m: nat, n: nat)
    requires
        digits(m) == digits(n),
    ensures
        m == n,
    decreases m,
{
    lemma_digits_len(m);
    lemma_digits_len(n);
    assert(digits(m).last() == digits(n).last());
    let a = (m % 10) as int;
    let b = (n % 10) as int;
    assert(digits(m).last() == digit(a) && digits(n).last() == digit(b));
    assert(digit(a) as int == 48 + a && digit(b) as int == 48 + b);
    if m >= 10 && n >= 10 {
        assert(digits(m).drop_last() =~= digits(m / 10));
        assert(digits(n).drop_last() =~= digits(n / 10));
        lemma_digits_injective(m / 10, n / 10);
    }
}

/// A decimal text has at least one digit, and exactly one below ten.
pub proof fn lemma_digits_len(n: nat)
    ensures
        digits(n).len() >= 1,
        n < 10 <==> digits(n).len() == 1,
        forall|i: int| 0 <= i < digits(n).len() ==> '0' <= #[trigger] digits(n)[i] <= '9',
    decreases n,
{
    if n >= 10 {
        lemma_digits_len(n / 10);
    }
}

/// Whether a character is an ASCII capital letter.
pub open spec fn is_upper(c: char) -> bool {
    'A' <= c <= 'Z'
}

/// The ASCII lower-case form of a character.
pub open spec fn ascii_lower(c: char) -> char {
    if is_upper(c) {
        (c as int + 32) as char
    } else {
        c
    }
}

/// The ASCII lower-case form of a character.
pub fn lower_ascii(c: char) -> (r: char)
    ensures
        r == ascii_lower(c),
{
    if 'A' <= c && c <= 'Z' {
        let code: u8 = c as u8;
        (code + 32) as char
    } else {
        c
    }
}

/// `a` comes before `b` in the order of their characters.
pub open spec fn text_lt(a: Seq<char>, b: Seq<char>) -> bool
    decreases a.len(),
{
    if b.len() == 0 {
        false
    } else if a.len() == 0 {
        true
    } else if a[0] != b[0] {
        a[0] < b[0]
    } else {
        text_lt(a.drop_first(), b.drop_first())
    }
}

/// The order of texts is total: one of two different texts comes before the
/// other, and never both.
pub proof fn lemma_text_order_total(a: Seq<char>, b: Seq<char>)
    ensures
        !(text_lt(a, b) && text_lt(b, a)),
        text_lt(a, b) || text_lt(b, a) || a == b,
        !text_lt(a, a),
    decreases a.len(),
{
    if a.len() > 0 && b.len() > 0 && a[0] == b[0] {
        lemma_text_order_total(a.drop_first(), b.drop_first());
        if a.drop_first() == b.drop_first() {
            assert(a =~= seq![a[0]] + a.drop_first());
            assert(b =~= seq![b[0]] + b.drop_first());
        }
    }
    if a.len() > 0 {
        lemma_text_order_total(a.drop_first(), a.drop_first());
    }
    if a.len() == 0 && b.len() == 0 {
        assert(a =~= b);
    }
}

/// The order of texts is transitive.
pub proof fn lemma_text_order_transitive(a: Seq<char>, b: Seq<char>, c: Seq<char>)
    requires
        text_lt(a, b),
        text_lt(b, c),
    ensures
        text_lt(a, c),
    decreases a.len(),
{
    if a.len() > 0 && a[0] == b[0] && b[0] == c[0] {
        lemma_text_order_transitive(a.drop_first(), b.drop_first(), c.drop_first());
    }
}

/// Whether `a` comes before `b` in the order of their characters.
pub fn text_before(a: &str, b: &str) -> (r: bool)
    ensures
        r == text_lt(a@, b@),
{
    let x = chars_of(a);
    let y = chars_of(b);
    let mut i: usize = 0;
    assert(x@.skip(0) =~= x@ && y@.skip(0) =~= y@);
    while i < x.len() && i < y.len()
        invariant
            x@ == a@,
            y@ == b@,
            i <= x@.len(),
            i <= y@.len(),
            text_lt(a@, b@) == text_lt(x@.skip(i as int), y@.skip(i as int)),
        decreases x.len() - i,
    {
        proof {
            let p = x@.skip(i as int);
            let q = y@.skip(i as int);
            assert(p[0] == x@[i as int] && q[0] == y@[i as int]);
            assert(p.drop_first() =~= x@.skip(i + 1));
            assert(q.drop_first() =~= y@.skip(i + 1));
        }
        if x[i] != y[i] {
            return x[i] < y[i];
        }
        i += 1;
    }
    assert(x@.skip(i as int).len() == x@.len() - i);
    assert(y@.skip(i as int).len() == y@.len() - i);
    i < y.len()
}

/// A list of texts in strictly ascending order.
pub open spec fn ascending(list: Seq<Seq<char>>) -> bool {
    forall|i: int, j: int|
        0 <= i < j < list.len() ==> text_lt(#[trigger] list[i], #[trigger] list[j])
}

/// `sorted` holds exactly the texts of `list`, each once and in ascending order.
pub open spec fn sorted_set_of(sorted: Seq<Seq<char>>, list: Seq<Seq<char>>) -> bool {
    &&& ascending(sorted)
    &&& forall|x: Seq<char>| #[trigger] text_in(sorted, x) <==> text_in(list, x)
}

/// Two ascending lists with the same texts are the same list.
pub proof fn lemma_sorted_set_unique(a: Seq<Seq<char>>, b: Seq<Seq<char>>)
    requires
        ascending(a),
        ascending(b),
        forall|x: Seq<char>| #[trigger] text_in(a, x) <==> text_in(b, x),
    ensures
        a == b,
    decreases a.len(),
{
    if a.len() == 0 {
        if b.len() > 0 {
            assert(b[0] == b[0]);
            assert(text_in(b, b[0]));
            assert(text_in(a, b[0]));
        }
        assert(a =~= b);
    } else {
        assert(text_in(a, a.last())) by {
            assert(a[a.len() - 1] == a.last());
        }
        assert(text_in(b, a.last()));
        assert(b.len() > 0);
        assert(text_in(b, b.last())) by {
            assert(b[b.len() - 1] == b.last());
        }
        assert(text_in(a, b.last()));
        let i = choose|i: int| 0 <= i < a.len() && #[trigger] a[i] == b.last();
        let j = choose|j: int| 0 <= j < b.len() && #[trigger] b[j] == a.last();
        lemma_text_order_total(a.last(), b.last());
        if a.last() != b.last() {
            assert(text_lt(a[i], a[a.len() - 1]));
            assert(text_lt(b[j], b[b.len() - 1]));
        }
        let p = a.drop_last();
        let q = b.drop_last();
        assert forall|x: Seq<char>| #[trigger] text_in(p, x) <==> text_in(q, x) by {
            if text_in(p, x) {
                let k = choose|k: int| 0 <= k < p.len() && #[trigger] p[k] == x;
                assert(a[k] == x);
                assert(text_lt(a[k], a[a.len() - 1]));
                lemma_text_order_total(x, a.last());
                assert(text_in(a, x));
                assert(text_in(b, x));
                let m = choose|m: int| 0 <= m < b.len() && #[trigger] b[m] == x;
                assert(q[m] == x);
            }
            if text_in(q, x) {
                let k = choose|k: int| 0 <= k < q.len() && #[trigger] q[k] == x;
                assert(b[k] == x);
                assert(text_lt(b[k], b[b.len() - 1]));
                lemma_text_order_total(x, b.last());
                assert(text_in(b, x));
                assert(text_in(a, x));
                let m = choose|m: int| 0 <= m < a.len() && #[trigger] a[m] == x;
                assert(p[m] == x);
            }
        }
        assert(ascending(p)) by {
            assert forall|i: int, j: int| 0 <= i < j < p.len() implies text_lt(
                #[trigger] p[i],
                #[trigger] p[j],
            ) by {
                assert(text_lt(a[i], a[j]));
            }
        }
        assert(ascending(q)) by {
            assert forall|i: int, j: int| 0 <= i < j < q.len() implies text_lt(
                #[trigger] q[i],
                #[trigger] q[j],
            ) by {
                assert(text_lt(b[i], b[j]));
            }
        }
        lemma_sorted_set_unique(p, q);
        assert(a =~= p.push(a.last()));
        assert(b =~= q.push(b.last()));
    }
}

/// Adds a text to an ascending list, unless it is there.
pub fn insert_sorted(list: &mut Vec<String>, x: String)
    requires
        ascending(texts(old(list)@)),
    ensures
        ascending(texts(final(list)@)),
        forall|y: Seq<char>|
            #[trigger] text_in(texts(final(list)@), y) <==> (text_in(texts(old(list)@), y) || y
                == x@),
{
    let ghost before = texts(list@);
    let mut i: usize = 0;
    while i < list.len() && text_before(list[i].as_str(), x.as_str())
        invariant
            i <= list@.len(),
            list@ == old(list)@,
            forall|j: int| 0 <= j < i ==> text_lt(#[trigger] texts(list@)[j], x@),
        decreases list.len() - i,
    {
        assert(texts(list@)[i as int] == list@[i as int]@);
        i += 1;
    }
    if i < list.len() && same_text(list[i].as_str(), x.as_str()) {
        assert(before[i as int] == x@);
        return;
    }
    let ghost key = x@;
    list.insert(i, x);
    proof {
        let after = texts(list@);
        let n = before.len();
        assert(after.len() == n + 1);
        assert(forall|j: int| 0 <= j < i ==> after[j] == before[j]);
        assert(after[i as int] == key);
        assert(forall|j: int| i < j < after.len() ==> after[j] == before[j - 1]);
        if i < n {
            lemma_text_order_total(before[i as int], key);
            assert(text_lt(key, before[i as int]));
        }
        assert forall|a: int, b: int| 0 <= a < b < after.len() implies text_lt(
            #[trigger] after[a],
            #[trigger] after[b],
        ) by {
            if a < i && b == i {
                assert(text_lt(before[a], key));
            } else if a < i && b > i {
                assert(text_lt(before[a], before[b - 1]));
            } else if a < i {
                assert(text_lt(before[a], before[b]));
            } else if a == i {
                if b - 1 > i {
                    assert(text_lt(before[i as int], before[b - 1]));
                    lemma_text_order_transitive(key, before[i as int], before[b - 1]);
                }
            } else {
                assert(text_lt(before[a - 1], before[b - 1]));
            }
        }
        assert forall|y: Seq<char>| #[trigger] text_in(after, y) <==> (text_in(before, y) || y
            == key) by {
            if text_in(after, y) {
                let k = choose|k: int| 0 <= k < after.len() && #[trigger] after[k] == y;
                if k < i {
                    assert(before[k] == y);
                } else if k > i {
                    assert(before[k - 1] == y);
                }
            }
            if text_in(before, y) {
                let k = choose|k: int| 0 <= k < before.len() && #[trigger] before[k] == y;
                if k < i {
                    assert(after[k] == y);
                } else {
                    assert(after[k + 1] == y);
                }
            }
            if y == key {
                assert(after[i as int] == y);
            }
        }
    }
}

/// The texts of a list, each once and in ascending order.
pub open spec fn sorted_texts(list: Seq<Seq<char>>) -> Seq<Seq<char>> {
    choose|sorted: Seq<Seq<char>>| sorted_set_of(sorted, list)
}

/// There is one way only to sort a list of texts.
pub proof fn lemma_sorted_texts(sorted: Seq<Seq<char>>, list: Seq<Seq<char>>)
    requires
        sorted_set_of(sorted, list),
    ensures
        sorted_texts(list) == sorted,
{
    let other = sorted_texts(list);
    assert(sorted_set_of(other, list));
    assert forall|x: Seq<char>| #[trigger] text_in(other, x) <==> text_in(sorted, x) by {
        assert(text_in(other, x) <==> text_in(list, x));
        assert(text_in(sorted, x) <==> text_in(list, x));
    }
    lemma_sorted_set_unique(other, sorted);
}

/// A list with one more text holds that one and those of the list.
pub proof fn lemma_text_in_push(list: Seq<Seq<char>>, last: Seq<char>)
    ensures
        forall|x: Seq<char>|
            #[trigger] text_in(list.push(last), x) <==> (text_in(list, x) || x == last),
{
    let more = list.push(last);
    assert forall|x: Seq<char>| #[trigger] text_in(more, x) <==> (text_in(list, x) || x == last) by {
        if text_in(more, x) {
            let k = choose|k: int| 0 <= k < more.len() && #[trigger] more[k] == x;
            if k < list.len() {
                assert(list[k] == x);
            }
        }
        if text_in(list, x) {
            let k = choose|k: int| 0 <= k < list.len() && #[trigger] list[k] == x;
            assert(more[k] == x);
        }
        if x == last {
            assert(more[list.len() as int] == x);
        }
    }
}

/// The texts of a list, one after another, with a separator between them.
pub open spec fn joined(list: Seq<Seq<char>>, separator: Seq<char>) -> Seq<char>
    decreases list.len(),
{
    if list.len() == 0 {
        Seq::empty()
    } else if list.len() == 1 {
        list[0]
    } else {
        joined(list.drop_last(), separator) + separator + list.last()
    }
}

/// The texts of a list, one after another, with a separator between them.
pub fn join_list(list: &[String], separator: &str) -> (r: String)
    ensures
        r@ == joined(texts(list@), separator@),
{
    let mut out: String = String::new();
    let mut i: usize = 0;
    assert(out@ =~= joined(texts(list@).take(0), separator@));
    while i < list.len()
        invariant
            i <= list@.len(),
            out@ == joined(texts(list@).take(i as int), separator@),
        decreases list.len() - i,
    {
        proof {
            let now = texts(list@).take(i + 1);
            assert(now.drop_last() =~= texts(list@).take(i as int));
            assert(now.last() == list@[i as int]@);
        }
        if i > 0 {
            out = join3(out.as_str(), separator, list[i].as_str());
        } else {
            out = list[i].clone();
        }
        i += 1;
    }
    assert(texts(list@).take(i as int) =~= texts(list@));
    out
}

/// What follows the last occurrence of a character, or the whole text where it
/// does not occur.
pub open spec fn after_last(whole: Seq<char>, c: char) -> Seq<char>
    decreases whole.len(),
{
    if whole.len() == 0 || whole.last() == c {
        Seq::empty()
    } else {
        after_last(whole.drop_last(), c).push(whole.last())
    }
}

/// What follows the last occurrence of a character, or the whole text where it
/// does not occur.
pub fn suffix_after(whole: &str, c: char) -> (r: String)
    ensures
        r@ == after_last(whole@, c),
{
    let chars = chars_of(whole);
    let mut out: Vec<char> = Vec::new();
    let mut i: usize = 0;
    while i < chars.len()
        invariant
            i <= chars@.len(),
            out@ == after_last(chars@.take(i as int), c),
        decreases chars.len() - i,
    {
        assert(chars@.take(i + 1).drop_last() =~= chars@.take(i as int));
        if chars[i] == c {
            out = Vec::new();
        } else {
            out.push(chars[i]);
        }
        i += 1;
    }
    assert(chars@.take(i as int) =~= chars@);
    string_of(out.as_slice())
}

/// Texts that agree as a whole and in the length of their fronts agree in both
/// parts.
pub proof fn lemma_split_front(a: Seq<char>, b: Seq<char>, c: Seq<char>, d: Seq<char>)
    requires
        a + b == c + d,
        a.len() == c.len(),
    ensures
        a == c,
        b == d,
{
    assert(a =~= (a + b).take(a.len() as int));
    assert(c =~= (c + d).take(c.len() as int));
    assert(b =~= (a + b).skip(a.len() as int));
    assert(d =~= (c + d).skip(c.len() as int));
}

/// No character of the text is a colon.
pub open spec fn no_colon(s: Seq<char>) -> bool {
    forall|i: int| 0 <= i < s.len() ==> #[trigger] s[i] != ':'
}

/// Texts without a colon can be read back from before the first one.
pub proof fn lemma_split_colon(a: Seq<char>, b: Seq<char>, c: Seq<char>, d: Seq<char>)
    requires
        a + (seq![':'] + b) == c + (seq![':'] + d),
        no_colon(a),
        no_colon(c),
    ensures
        a == c,
        b == d,
{
    let x = a + (seq![':'] + b);
    let y = c + (seq![':'] + d);
    assert(x[a.len() as int] == ':');
    assert(y[c.len() as int] == ':');
    if a.len() < c.len() {
        assert(y[a.len() as int] == c[a.len() as int]);
    }
    if c.len() < a.len() {
        assert(x[c.len() as int] == a[c.len() as int]);
    }
    lemma_split_front(a, seq![':'] + b, c, seq![':'] + d);
    lemma_split_front(seq![':'], b, seq![':'], d);
}

/// A decimal text has no colon, and its first character tells its sign.
pub proof fn lemma_decimal_no_colon(n: int)
    ensures
        no_colon(decimal(n)),
        decimal(n).len() >= 1,
        n < 0 ==> decimal(n).len() >= 2 && decimal(n)[0] == '-',
        n >= 0 ==> '0' <= decimal(n)[0] <= '9',
{
    if n < 0 {
        lemma_digits_len((-n) as nat);
        let d = digits((-n) as nat);
        assert forall|i: int| 0 <= i < decimal(n).len() implies #[trigger] decimal(
            n,
        )[i] != ':' by {
            if i > 0 {
                assert(decimal(n)[i] == d[i - 1]);
            }
        }
    } else {
        lemma_digits_len(n as nat);
    }
}

/// Numbers with the same decimal text are the same number.
pub proof fn lemma_decimal_injective(m: int, n: int)
    requires
        decimal(m) == decimal(n),
    ensures
        m == n,
{
    lemma_decimal_no_colon(m);
    lemma_decimal_no_colon(n);
    if m < 0 && n < 0 {
        lemma_split_front(
            seq!['-'],
            digits((-m) as nat),
            seq!['-'],
            digits((-n) as nat),
        );
        lemma_digits_injective((-m) as nat, (-n) as nat);
    } else if m >= 0 && n >= 0 {
        lemma_digits_injective(m as nat, n as nat);
    }
}

/// Joining texts may start at either end.
pub proof fn lemma_assoc(a: Seq<char>, b: Seq<char>, c: Seq<char>)
    ensures
        (a + b) + c == a + (b + c),
{
    assert((a + b) + c =~= a + (b + c));
}

/// The number that some digits stand for.
pub open spec fn digits_value(s: Seq<char>) -> int
    decreases s.len(),
{
    if s.len() == 0 {
        0
    } else {
        digits_value(s.drop_last()) * 10 + (s.last() as int - 48)
    }
}

/// A text of digits only, and at least one.
pub open spec fn all_digits(s: Seq<char>) -> bool {
    s.len() > 0 && forall|i: int| 0 <= i < s.len() ==> '0' <= #[trigger] s[i] <= '9'
}

/// The number that a text stands for: an optional sign and digits, within an
/// `i64`.
pub open spec fn parsed_i64(s: Seq<char>) -> Option<int> {
    let signed = s.len() > 0 && (s[0] == '-' || s[0] == '+');
    let rest = if signed {
        s.skip(1)
    } else {
        s
    };
    let n = if signed && s[0] == '-' {
        -digits_value(rest)
    } else {
        digits_value(rest)
    };
    if all_digits(rest) && i64::MIN <= n <= i64::MAX {
        Some(n)
    } else {
        None
    }
}

proof fn lemma_digits_value_grows(s: Seq<char>, n: int)
    requires
        0 <= n <= s.len(),
        forall|i: int| 0 <= i < s.len() ==> '0' <= #[trigger] s[i] <= '9',
    ensures
        0 <= digits_value(s.take(n)) <= digits_value(s),
    decreases s.len() - n, n,
{
    if n < s.len() {
        assert(s.take(n + 1).drop_last() =~= s.take(n));
        assert(s.take(n + 1).last() == s[n]);
        lemma_digits_value_grows(s, n + 1);
        lemma_digits_value_positive(s.take(n));
    } else {
        assert(s.take(n) =~= s);
        lemma_digits_value_positive(s);
    }
}

proof fn lemma_digits_value_positive(s: Seq<char>)
    requires
        forall|i: int| 0 <= i < s.len() ==> '0' <= #[trigger] s[i] <= '9',
    ensures
        0 <= digits_value(s),
    decreases s.len(),
{
    if s.len() > 0 {
        assert forall|i: int| 0 <= i < s.drop_last().len() implies '0' <= #[trigger] s.drop_last()[i]
            <= '9' by {
            assert(s.drop_last()[i] == s[i]);
        }
        assert(s.last() == s[s.len() - 1]);
        lemma_digits_value_positive(s.drop_last());
    }
}

/// Reads a number: an optional sign and digits, within an `i64`.
pub fn parse_i64(s: &str) -> (r: Option<i64>)
    ensures
        match parsed_i64(s@) {
            Some(n) => r matches Some(m) && m == n,
            None => r is None,
        },
{
    let chars = chars_of(s);
    let signed = chars.len() > 0 && (chars[0] == '-' || chars[0] == '+');
    let negative = signed && chars[0] == '-';
    let start: usize = if signed {
        1
    } else {
        0
    };
    let ghost rest = chars@.skip(start as int);
    assert(!signed ==> rest =~= s@);
    if start == chars.len() {
        return None;
    }
    let limit: i128 = 9_223_372_036_854_775_808;
    let mut value: i128 = 0;
    let mut i: usize = start;
    assert(rest.take(0) =~= Seq::empty());
    while i < chars.len()
        invariant
            start <= i <= chars@.len(),
            start <= 1,
            chars@ == s@,
            signed == (s@.len() > 0 && (s@[0] == '-' || s@[0] == '+')),
            rest == (if signed {
                s@.skip(1)
            } else {
                s@
            }),
            rest == chars@.skip(start as int),
            rest.len() == chars@.len() - start,
            limit == 9_223_372_036_854_775_808,
            0 <= value <= limit,
            value == digits_value(rest.take(i - start)),
            forall|k: int| 0 <= k < i - start ==> '0' <= #[trigger] rest[k] <= '9',
        decreases chars.len() - i,
    {
        let c = chars[i];
        assert(c == rest[i - start]);
        if c < '0' || c > '9' {
            assert(!all_digits(rest));
            return None;
        }
        assert(rest.take(i - start + 1).drop_last() =~= rest.take(i - start));
        value = value * 10 + (c as u32 as i128 - 48);
        if value > limit {
            proof {
                if all_digits(rest) {
                    lemma_digits_value_grows(rest, i - start + 1);
                }
            }
            return None;
        }
        i += 1;
    }
    assert(rest.take(i - start) =~= rest);
    assert(all_digits(rest));
    if negative {
        Some((-value) as i64)
    } else if value == limit {
        None
    } else {
        Some(value as i64)
    }
}

proof fn lemma_digits_read_back(n: nat)
    ensures
        digits_value(digits(n)) == n,
    decreases n,
{
    if n < 10 {
        let one = digits(n);
        assert(one.drop_last() =~= Seq::<char>::empty());
        assert(digits_value(Seq::<char>::empty()) == 0);
        assert(one.last() as int == 48 + n);
    } else {
        lemma_digits_read_back(n / 10);
        assert(digits(n).drop_last() =~= digits(n / 10));
        assert(digits(n).last() as int == 48 + n % 10);
    }
}

/// The decimal text of a number reads back as that number.
pub proof fn law_decimal_reads_back(n: int)
    requires
        i64::MIN <= n <= i64::MAX,
    ensures
        parsed_i64(decimal(n)) == Some(n),
{
    let m = if n < 0 {
        (-n) as nat
    } else {
        n as nat
    };
    lemma_digits_read_back(m);
    lemma_digits_len(m);
    let s = decimal(n);
    if n < 0 {
        assert(s.skip(1) =~= digits(m));
    } else {
        assert(s[0] == digits(m)[0]);
    }
}

/// Each further digit is worth ten times the digits before it and itself: the
/// last character of a decimal text is the last digit of the number.
pub proof fn law_decimal_texts_have_base_ten(n: nat, last: nat)
    requires
        0 < n,
        last < 10,
    ensures
        digits(10 * n + last) == digits(n).push((48 + last) as char),
        last == 0 ==> digits(last)[0] == '0',
        digits(last).len() == 1 && digits(last)[0] as int == 48 + last,
{
    assert((10 * n + last) / 10 == n && (10 * n + last) % 10 == last);
}

/// What follows a prefix is what was put behind it, and nothing follows a prefix
/// that is not there.
pub proof fn law_prefixes_come_off(prefix: Seq<char>, rest: Seq<char>, whole: Seq<char>)
    ensures
        after_prefix(prefix + rest, prefix) == Some(rest),
        after_prefix(whole, prefix) matches Some(left) ==> whole == prefix + left,
{
    assert((prefix + rest).take(prefix.len() as int) =~= prefix);
    assert((prefix + rest).skip(prefix.len() as int) =~= rest);
    if let Some(left) = after_prefix(whole, prefix) {
        assert(whole =~= whole.take(prefix.len() as int) + whole.skip(prefix.len() as int));
    }
}

/// What follows the last of a character is what stands behind it.
pub proof fn law_suffixes_follow_the_last(head: Seq<char>, c: char, tail: Seq<char>)
    requires
        forall|i: int| 0 <= i < tail.len() ==> #[trigger] tail[i] != c,
    ensures
        after_last(head.push(c) + tail, c) == tail,
    decreases tail.len(),
{
    let whole = head.push(c) + tail;
    if tail.len() == 0 {
        assert(whole.last() == c);
        assert(tail =~= Seq::<char>::empty());
    } else {
        let less = tail.drop_last();
        assert(whole.drop_last() =~= head.push(c) + less);
        assert(whole.last() == tail[tail.len() - 1]);
        law_suffixes_follow_the_last(head, c, less);
        assert(less.push(tail.last()) =~= tail);
    }
}

/// One text comes before another where the first character in which they differ
/// is smaller, or where it is only the beginning of it.
pub proof fn law_texts_are_ordered_by_their_first_difference(
    same: Seq<char>,
    x: char,
    y: char,
    a: Seq<char>,
    b: Seq<char>,
)
    requires
        x < y,
    ensures
        text_lt(same + seq![x] + a, same + seq![y] + b),
        !text_lt(same + seq![y] + b, same + seq![x] + a),
        text_lt(same, same + seq![x] + a),
        !text_lt(same + seq![x] + a, same),
        !text_lt(same, same),
    decreases same.len(),
{
    if same.len() > 0 {
        let rest = same.drop_first();
        assert((same + seq![x] + a).drop_first() =~= rest + seq![x] + a);
        assert((same + seq![y] + b).drop_first() =~= rest + seq![y] + b);
        law_texts_are_ordered_by_their_first_difference(rest, x, y, a, b);
    } else {
        assert((same + seq![x] + a)[0] == x);
        assert((same + seq![y] + b)[0] == y);
    }
}

/// A list is joined text by text, with the separator before each but the first.
pub proof fn law_joined_texts_are_separated(
    list: Seq<Seq<char>>,
    last: Seq<char>,
    separator: Seq<char>,
)
    ensures
        joined(Seq::<Seq<char>>::empty(), separator) == Seq::<char>::empty(),
        list.len() == 0 ==> joined(list.push(last), separator) == last,
        list.len() > 0 ==> joined(list.push(last), separator) == joined(list, separator) + separator
            + last,
{
    assert(list.push(last).drop_last() =~= list);
}

/// Occurrences are positions: as many are counted as there are places at which
/// the part stands.
pub proof fn law_occurrences_are_positions(whole: Seq<char>, part: Seq<char>, n: nat)
    ensures
        ({
            let places = Set::new(
                |i: int|
                    0 <= i < n && i + part.len() <= whole.len() && whole.subrange(
                        i,
                        i + part.len(),
                    ) == part,
            );
            places.finite() && occurrences(whole, part, n) == places.len()
        }),
    decreases n,
{
    let places = Set::new(
        |i: int|
            0 <= i < n && i + part.len() <= whole.len() && whole.subrange(i, i + part.len())
                == part,
    );
    if n == 0 {
        assert(places =~= Set::<int>::empty());
    } else {
        let m = (n - 1) as nat;
        let fewer = Set::new(
            |i: int|
                0 <= i < m && i + part.len() <= whole.len() && whole.subrange(i, i + part.len())
                    == part,
        );
        law_occurrences_are_positions(whole, part, m);
        if m + part.len() <= whole.len() && whole.subrange(m as int, m as int + part.len())
            == part {
            assert(places =~= fewer.insert(m as int));
        } else {
            assert(places =~= fewer);
        }
    }
}

/// A sorted list of texts holds the same texts, each once, in strictly ascending
/// order.
pub proof fn law_sorted_lists_hold_the_same_texts(
    sorted: Seq<Seq<char>>,
    list: Seq<Seq<char>>,
    x: Seq<char>,
)
    requires
        sorted_set_of(sorted, list),
    ensures
        (exists|i: int| 0 <= i < sorted.len() && #[trigger] sorted[i] == x) <==> (exists|i: int|
            0 <= i < list.len() && #[trigger] list[i] == x),
        forall|i: int, j: int|
            0 <= i < j < sorted.len() ==> text_lt(#[trigger] sorted[i], #[trigger] sorted[j]),
        forall|i: int, j: int|
            0 <= i < j < sorted.len() ==> #[trigger] sorted[i] != #[trigger] sorted[j],
{
    assert(text_in(sorted, x) <==> text_in(list, x));
    assert forall|i: int, j: int| 0 <= i < j < sorted.len() implies #[trigger] sorted[i]
        != #[trigger] sorted[j] by {
        lemma_text_order_total(sorted[i], sorted[j]);
    }
}

/// A number is read digit by digit, each further digit in base ten; a sign may
/// come first, and nothing else may stand in it.
pub proof fn law_numbers_are_read_digit_by_digit(s: Seq<char>, last: int)
    requires
        0 <= last < 10,
        s.len() <= 18,
        forall|i: int| 0 <= i < s.len() ==> '0' <= #[trigger] s[i] <= '9',
    ensures
        digits_value(s.push((48 + last) as char)) == 10 * digits_value(s) + last,
        digits_value(Seq::empty()) == 0,
        0 <= digits_value(s) < 1_000_000_000_000_000_000,
        s.len() > 0 ==> parsed_i64(s) == Some(digits_value(s)),
        s.len() > 0 ==> parsed_i64(seq!['-'] + s) == Some(-digits_value(s)),
        s.len() > 0 ==> parsed_i64(seq!['+'] + s) == Some(digits_value(s)),
        parsed_i64(Seq::empty()) is None,
        parsed_i64(s.push('x')) is None,
{
    let more = s.push((48 + last) as char);
    assert(more.drop_last() =~= s);
    lemma_digits_value_bound(s);
    if s.len() > 0 {
        assert(s[0] != '-' && s[0] != '+');
        assert((seq!['-'] + s).skip(1) =~= s);
        assert((seq!['+'] + s).skip(1) =~= s);
    }
    let bad = s.push('x');
    assert(bad[s.len() as int] == 'x');
    if s.len() > 0 {
        assert(bad[0] == s[0]);
    }
    assert(!all_digits(bad));
}

proof fn lemma_digits_value_bound(s: Seq<char>)
    requires
        s.len() <= 18,
        forall|i: int| 0 <= i < s.len() ==> '0' <= #[trigger] s[i] <= '9',
    ensures
        0 <= digits_value(s) < vstd::arithmetic::power::pow(10, s.len()),
        digits_value(s) < 1_000_000_000_000_000_000,
    decreases s.len(),
{
    reveal(vstd::arithmetic::power::pow);
    if s.len() > 0 {
        let head = s.drop_last();
        assert forall|i: int| 0 <= i < head.len() implies '0' <= #[trigger] head[i] <= '9' by {
            assert(head[i] == s[i]);
        }
        assert(s.last() == s[s.len() - 1]);
        lemma_digits_value_bound(head);
        assert(vstd::arithmetic::power::pow(10, s.len()) == 10 * vstd::arithmetic::power::pow(
            10,
            head.len(),
        ));
    }
    assert(vstd::arithmetic::power::pow(10, 18) == 1_000_000_000_000_000_000) by {
        reveal_with_fuel(vstd::arithmetic::power::pow, 19);
    }
    vstd::arithmetic::power::lemma_pow_increases(10, s.len(), 18);
}

} // verus!
