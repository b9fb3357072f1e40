//! Deterministic extraction of bounded ASCII-style handles.

use crate::text;
use vstd::prelude::*;

verus! {

/// A character that a handle may hold.
pub open spec fn handle_char(c: char) -> bool {
    ('0' <= c <= '9') || ('A' <= c <= 'Z') || ('a' <= c <= 'z') || c == '_'
}

/// The end of the run of handle characters that starts at `from`.
pub open spec fn run_end(body: Seq<char>, from: int) -> int
    decreases body.len() - from,
{
    if 0 <= from < body.len() && handle_char(body[from]) {
        run_end(body, from + 1)
    } else {
        from
    }
}

/// The ASCII lower-case form of a text.
pub open spec fn lowered(chars: Seq<char>) -> Seq<char> {
    Seq::new(chars.len(), |i: int| text::ascii_lower(chars[i]))
}

/// The handles mentioned from position `at` on, in order and with repetitions:
/// each is the run of handle characters after an `@` outside a code span, if it
/// has 3 to 32 characters.
pub open spec fn handles(body: Seq<char>, at: int, in_code: bool) -> Seq<Seq<char>>
    decreases body.len() - at,
    via handles_decreases
{
    if at < 0 || at >= body.len() {
        Seq::empty()
    } else if body[at] == '`' {
        handles(body, at + 1, !in_code)
    } else if in_code || body[at] != '@' {
        handles(body, at + 1, in_code)
    } else {
        let end = run_end(body, at + 1);
        let rest = handles(body, end, in_code);
        if 3 <= end - (at + 1) <= 32 {
            seq![lowered(body.subrange(at + 1, end))] + rest
        } else {
            rest
        }
    }
}

#[via_fn]
proof fn handles_decreases(body: Seq<char>, at: int, in_code: bool) {
    if 0 <= at < body.len() {
        lemma_run_end(body, at + 1);
    }
}

proof fn lemma_run_end(body: Seq<char>, from: int)
    requires
        0 <= from <= body.len(),
    ensures
        from <= run_end(body, from) <= body.len(),
        forall|i: int| from <= i < run_end(body, from) ==> handle_char(#[trigger] body[i]),
    decreases body.len() - from,
{
    if from < body.len() && handle_char(body[from]) {
        lemma_run_end(body, from + 1);
    }
}

/// The texts of a list without those that came before.
pub open spec fn first_of_each(list: Seq<Seq<char>>) -> Seq<Seq<char>>
    decreases list.len(),
{
    if list.len() == 0 {
        Seq::empty()
    } else {
        let head = first_of_each(list.drop_last());
        if text::text_in(head, list.last()) {
            head
        } else {
            head.push(list.last())
        }
    }
}

/// The first `max` different handles that a text mentions.
pub open spec fn mentioned(body: Seq<char>, max: int) -> Seq<Seq<char>> {
    let all = first_of_each(handles(body, 0, false));
    if all.len() > max {
        all.take(max)
    } else {
        all
    }
}

/// A mention: 3 to 32 handle characters, none of them a capital letter.
pub open spec fn well_formed_handle(handle: Seq<char>) -> bool {
    &&& 3 <= handle.len() <= 32
    &&& forall|i: int|
        0 <= i < handle.len() ==> handle_char(#[trigger] handle[i]) && !text::is_upper(handle[i])
}

/// What comes first stays first: more mentions only extend the list.
proof fn lemma_first_of_each_extends(a: Seq<Seq<char>>, b: Seq<Seq<char>>)
    ensures
        first_of_each(a + b).len() >= first_of_each(a).len(),
        first_of_each(a + b).take(first_of_each(a).len() as int) == first_of_each(a),
    decreases b.len(),
{
    if b.len() == 0 {
        assert(a + b =~= a);
        assert(first_of_each(a).take(first_of_each(a).len() as int) =~= first_of_each(a));
    } else {
        assert((a + b).drop_last() =~= a + b.drop_last());
        lemma_first_of_each_extends(a, b.drop_last());
        let n = first_of_each(a).len() as int;
        assert(first_of_each(a + b).take(n) =~= first_of_each(a + b.drop_last()).take(n));
    }
}

proof fn lemma_first_of_each_members(list: Seq<Seq<char>>, i: int) -> (k: int)
    requires
        0 <= i < first_of_each(list).len(),
    ensures
        0 <= k < list.len(),
        list[k] == first_of_each(list)[i],
    decreases list.len(),
{
    let head = list.drop_last();
    if i < first_of_each(head).len() {
        let k = lemma_first_of_each_members(head, i);
        assert(head[k] == list[k]);
        k
    } else {
        list.len() - 1
    }
}

proof fn lemma_first_of_each_distinct(list: Seq<Seq<char>>, i: int, j: int)
    requires
        0 <= i < j < first_of_each(list).len(),
    ensures
        first_of_each(list)[i] != first_of_each(list)[j],
    decreases list.len(),
{
    let head = list.drop_last();
    if j < first_of_each(head).len() {
        lemma_first_of_each_distinct(head, i, j);
    } else {
        assert(!text::text_in(first_of_each(head), list.last()));
        assert(first_of_each(head)[i] == first_of_each(list)[i]);
    }
}

proof fn lemma_handles_well_formed(body: Seq<char>, at: int, in_code: bool, k: int)
    requires
        0 <= at,
        0 <= k < handles(body, at, in_code).len(),
    ensures
        well_formed_handle(handles(body, at, in_code)[k]),
    decreases body.len() - at,
{
    if at < body.len() {
        if body[at] == '`' {
            lemma_handles_well_formed(body, at + 1, !in_code, k);
        } else if in_code || body[at] != '@' {
            lemma_handles_well_formed(body, at + 1, in_code, k);
        } else {
            let end = run_end(body, at + 1);
            lemma_run_end(body, at + 1);
            let rest = handles(body, end, in_code);
            if 3 <= end - (at + 1) <= 32 {
                if k == 0 {
                    let handle = lowered(body.subrange(at + 1, end));
                    assert forall|i: int| 0 <= i < handle.len() implies handle_char(
                        #[trigger] handle[i],
                    ) && !text::is_upper(handle[i]) by {
                        let c = body[at + 1 + i];
                        assert(handle_char(c));
                        if text::is_upper(c) {
                            assert(handle[i] as int == c as int + 32);
                        }
                    }
                } else {
                    lemma_handles_well_formed(body, end, in_code, k - 1);
                    assert(handles(body, at, in_code)[k] == rest[k - 1]);
                }
            } else {
                lemma_handles_well_formed(body, end, in_code, k);
            }
        }
    }
}

/// Mentions are bounded in number, all different, and all well-formed handles
/// in lower case.
pub proof fn law_mentions_are_bounded_and_distinct(body: Seq<char>, max: int)
    requires
        0 <= max,
    ensures
        mentioned(body, max).len() <= max,
        forall|i: int|
            0 <= i < mentioned(body, max).len() ==> well_formed_handle(
                #[trigger] mentioned(body, max)[i],
            ),
        forall|i: int, j: int|
            0 <= i < j < mentioned(body, max).len() ==> #[trigger] mentioned(body, max)[i]
                != #[trigger] mentioned(body, max)[j],
{
    let list = handles(body, 0, false);
    let all = first_of_each(list);
    assert forall|i: int| 0 <= i < mentioned(body, max).len() implies well_formed_handle(
        #[trigger] mentioned(body, max)[i],
    ) by {
        let k = lemma_first_of_each_members(list, i);
        lemma_handles_well_formed(body, 0, false, k);
    }
    assert forall|i: int, j: int| 0 <= i < j < mentioned(body, max).len() implies #[trigger] mentioned(
        body,
        max,
    )[i] != #[trigger] mentioned(body, max)[j] by {
        lemma_first_of_each_distinct(list, i, j);
        assert(mentioned(body, max)[i] == all[i] && mentioned(body, max)[j] == all[j]);
    }
}

fn is_handle_char(c: char) -> (r: bool)
    ensures
        r == handle_char(c),
{
    ('0' <= c && c <= '9') || ('A' <= c && c <= 'Z') || ('a' <= c && c <= 'z') || c == '_'
}

/// The first `max` different handles that `body` mentions, in lower case. A
/// backtick toggles a code span, in which nothing counts.
#[must_use]
pub fn parse_mentions(body: &str, max: u8) -> (r: Vec<String>)
    ensures
        text::texts(r@) == mentioned(body@, max as int),
        r@.len() <= max,
{
    let mut mentions: Vec<String> = Vec::new();
    let ghost all = handles(body@, 0, false);
    if max == 0 {
        assert(text::texts(mentions@) =~= mentioned(body@, 0));
        return mentions;
    }
    let chars = text::chars_of(body);
    let mut in_code = false;
    let mut index: usize = 0;
    let ghost mut seen: Seq<Seq<char>> = Seq::empty();
    assert(all =~= seen + handles(chars@, 0, false));
    assert(text::texts(mentions@) =~= first_of_each(seen));
    while index < chars.len()
        invariant
            chars@ == body@,
            0 < max,
            index <= chars@.len(),
            mentions@.len() < max,
            all == handles(body@, 0, false),
            all == seen + handles(chars@, index as int, in_code),
            text::texts(mentions@) == first_of_each(seen),
        decreases chars.len() - index,
    {
        let c: char = chars[index];
        if c == '`' {
            in_code = !in_code;
            index += 1;
            continue;
        }
        if in_code || c != '@' {
            index += 1;
            continue;
        }
        let start: usize = index + 1;
        let mut end: usize = start;
        let mut handle = String::new();
        while end < chars.len() && is_handle_char(chars[end])
            invariant
                start <= end <= chars@.len(),
                run_end(chars@, start as int) == run_end(chars@, end as int),
                handle@ == lowered(chars@.subrange(start as int, end as int)),
            decreases chars.len() - end,
        {
            handle.push(text::lower_ascii(chars[end]));
            end += 1;
            assert(handle@ =~= lowered(chars@.subrange(start as int, end as int)));
        }
        assert(end == run_end(chars@, start as int));
        let length: usize = end - start;
        if 3 <= length && length <= 32 {
            let ghost h = handle@;
            let ghost rest = handles(chars@, end as int, in_code);
            proof {
                assert(seen.push(h).drop_last() =~= seen);
                assert(seen + (seq![h] + rest) =~= seen.push(h) + rest);
                seen = seen.push(h);
            }
            if !text::contains_text(mentions.as_slice(), handle.as_str()) {
                let ghost before = text::texts(mentions@);
                mentions.push(handle);
                assert(text::texts(mentions@) =~= before.push(h));
                if mentions.len() == max as usize {
                    proof {
                        lemma_first_of_each_extends(seen, rest);
                        let whole = first_of_each(all);
                        assert(whole.take(max as int) == first_of_each(seen));
                        if whole.len() == max {
                            assert(whole.take(max as int) =~= whole);
                        }
                    }
                    return mentions;
                }
            }
        }
        index = end;
    }
    proof {
        assert(all =~= seen);
    }
    mentions
}

proof fn lemma_run_covers(body: Seq<char>, from: int, to: int)
    requires
        0 <= from <= to <= body.len(),
        forall|i: int| from <= i < to ==> handle_char(#[trigger] body[i]),
        to < body.len() ==> !handle_char(body[to]),
    ensures
        run_end(body, from) == to,
    decreases to - from,
{
    if from < to {
        assert(handle_char(body[from]));
        lemma_run_covers(body, from + 1, to);
    }
}

proof fn lemma_run_end_shifts(a: Seq<char>, b: Seq<char>, from: int)
    requires
        0 <= from <= b.len(),
    ensures
        run_end(a + b, a.len() + from) == a.len() + run_end(b, from),
    decreases b.len() - from,
{
    if from < b.len() {
        assert((a + b)[a.len() + from] == b[from]);
        if handle_char(b[from]) {
            lemma_run_end_shifts(a, b, from + 1);
        }
    }
}

proof fn lemma_handles_shift(a: Seq<char>, b: Seq<char>, at: int, in_code: bool)
    requires
        0 <= at <= b.len(),
    ensures
        handles(a + b, a.len() + at, in_code) == handles(b, at, in_code),
    decreases b.len() - at,
{
    if at < b.len() {
        assert((a + b)[a.len() + at] == b[at]);
        if b[at] == '`' {
            lemma_handles_shift(a, b, at + 1, !in_code);
        } else if in_code || b[at] != '@' {
            lemma_handles_shift(a, b, at + 1, in_code);
        } else {
            let end = run_end(b, at + 1);
            lemma_run_end(b, at + 1);
            lemma_run_end_shifts(a, b, at + 1);
            lemma_handles_shift(a, b, end, in_code);
            assert((a + b).subrange(a.len() + at + 1, a.len() + end) =~= b.subrange(at + 1, end));
        }
    }
}

proof fn lemma_handles_skip(body: Seq<char>, from: int, to: int, in_code: bool)
    requires
        0 <= from <= to <= body.len(),
        forall|i: int|
            from <= i < to ==> #[trigger] body[i] != '`' && (in_code || body[i] != '@'),
    ensures
        handles(body, from, in_code) == handles(body, to, in_code),
    decreases to - from,
{
    if from < to {
        assert(body[from] != '`');
        lemma_handles_skip(body, from + 1, to, in_code);
    }
}

/// An `@` outside code names the longest run of letters, digits and underscores
/// behind it, in lower case, where that run has 3 to 32 characters; what follows
/// is read on from there.
pub proof fn law_a_mention_is_the_run_behind_its_sign(
    before: Seq<char>,
    handle: Seq<char>,
    after: Seq<char>,
)
    requires
        forall|i: int| 0 <= i < before.len() ==> #[trigger] before[i] != '@' && before[i] != '`',
        forall|i: int|
            0 <= i < handle.len() ==> ('0' <= #[trigger] handle[i] <= '9') || ('A' <= handle[i]
                <= 'Z') || ('a' <= handle[i] <= 'z') || handle[i] == '_',
        after.len() > 0 ==> !(('0' <= after[0] <= '9') || ('A' <= after[0] <= 'Z') || ('a'
            <= after[0] <= 'z') || after[0] == '_'),
    ensures
        3 <= handle.len() <= 32 ==> handles(before + seq!['@'] + handle + after, 0, false) == seq![
            Seq::new(
                handle.len(),
                |i: int|
                    if 'A' <= handle[i] <= 'Z' {
                        (handle[i] as int + 32) as char
                    } else {
                        handle[i]
                    },
            ),
        ] + handles(after, 0, false),
        handle.len() < 3 || handle.len() > 32 ==> handles(
            before + seq!['@'] + handle + after,
            0,
            false,
        ) == handles(after, 0, false),
{
    let body = before + seq!['@'] + handle + after;
    let at = before.len() as int;
    let end = at + 1 + handle.len();
    assert forall|i: int| 0 <= i < at implies #[trigger] body[i] != '`' && body[i] != '@' by {
        assert(body[i] == before[i]);
    }
    lemma_handles_skip(body, 0, at, false);
    assert(body[at] == '@');
    assert forall|i: int| at + 1 <= i < end implies handle_char(#[trigger] body[i]) by {
        assert(body[i] == handle[i - at - 1]);
    }
    if end < body.len() {
        assert(body[end] == after[0]);
    }
    lemma_run_covers(body, at + 1, end);
    let front = before + seq!['@'] + handle;
    assert(body =~= front + after);
    lemma_handles_shift(front, after, 0, false);
    assert(body.subrange(at + 1, end) =~= handle);
    assert(lowered(handle) =~= Seq::new(
        handle.len(),
        |i: int|
            if 'A' <= handle[i] <= 'Z' {
                (handle[i] as int + 32) as char
            } else {
                handle[i]
            },
    ));
}

/// Nothing between two backticks is a mention.
pub proof fn law_code_mentions_nobody(before: Seq<char>, code: Seq<char>, after: Seq<char>)
    requires
        forall|i: int| 0 <= i < before.len() ==> #[trigger] before[i] != '@' && before[i] != '`',
        forall|i: int| 0 <= i < code.len() ==> #[trigger] code[i] != '`',
    ensures
        handles(before + seq!['`'] + code + seq!['`'] + after, 0, false) == handles(
            after,
            0,
            false,
        ),
        handles(before, 0, false) == Seq::<Seq<char>>::empty(),
{
    let body = before + seq!['`'] + code + seq!['`'] + after;
    let open = before.len() as int;
    let close = open + 1 + code.len();
    assert forall|i: int| 0 <= i < open implies #[trigger] body[i] != '`' && body[i] != '@' by {
        assert(body[i] == before[i]);
    }
    lemma_handles_skip(body, 0, open, false);
    assert(body[open] == '`');
    assert forall|i: int| open + 1 <= i < close implies #[trigger] body[i] != '`' by {
        assert(body[i] == code[i - open - 1]);
    }
    lemma_handles_skip(body, open + 1, close, true);
    assert(body[close] == '`');
    let front = before + seq!['`'] + code + seq!['`'];
    assert(body =~= front + after);
    lemma_handles_shift(front, after, 0, false);
    lemma_handles_skip(before, 0, before.len() as int, false);
}

/// Every handle that is mentioned is kept, once, where it was mentioned first:
/// a handle that is new goes behind the others, and one that is not changes
/// nothing.
pub proof fn law_each_handle_is_kept_once(list: Seq<Seq<char>>, last: Seq<char>)
    ensures
        (exists|i: int| 0 <= i < list.len() && #[trigger] list[i] == last) ==> first_of_each(
            list.push(last),
        ) == first_of_each(list),
        !(exists|i: int| 0 <= i < list.len() && #[trigger] list[i] == last) ==> first_of_each(
            list.push(last),
        ) == first_of_each(list).push(last),
{
    assert(list.push(last).drop_last() =~= list);
    if exists|i: int| 0 <= i < list.len() && #[trigger] list[i] == last {
        let k = choose|i: int| 0 <= i < list.len() && #[trigger] list[i] == last;
        lemma_first_of_each_keeps(list, k);
    } else if text::text_in(first_of_each(list), last) {
        let i = choose|i: int|
            0 <= i < first_of_each(list).len() && #[trigger] first_of_each(list)[i] == last;
        let k = lemma_first_of_each_members(list, i);
        assert(list[k] == last);
    }
}

proof fn lemma_first_of_each_keeps(list: Seq<Seq<char>>, k: int)
    requires
        0 <= k < list.len(),
    ensures
        text::text_in(first_of_each(list), list[k]),
    decreases list.len(),
{
    let head = list.drop_last();
    let kept = first_of_each(head);
    if k < head.len() {
        lemma_first_of_each_keeps(head, k);
        assert(head[k] == list[k]);
        let i = choose|i: int| 0 <= i < kept.len() && #[trigger] kept[i] == list[k];
        assert(first_of_each(list)[i] == list[k]);
    } else if !text::text_in(kept, list.last()) {
        assert(first_of_each(list)[kept.len() as int] == list[k]);
    }
}

/// No more than the first so many handles are kept, and all of them where there
/// are not more.
pub proof fn law_the_first_handles_are_kept(body: Seq<char>, max: int, i: int)
    requires
        0 <= max,
        0 <= i < first_of_each(handles(body, 0, false)).len(),
    ensures
        i < max ==> i < mentioned(body, max).len() && mentioned(body, max)[i] == first_of_each(
            handles(body, 0, false),
        )[i],
        mentioned(body, max).len() <= max,
{
}

} // verus!
