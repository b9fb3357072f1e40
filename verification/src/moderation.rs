//! Pure deterministic comment moderation.

use crate::digest;
use crate::text;
use crate::unicode;
use vstd::prelude::*;

verus! {

/// The configured limits on comments.
#[derive(Clone, Copy, Debug, Eq, PartialEq, Structural)]
pub struct ModerationRules {
    pub max_comment_len_chars: u32,
    pub max_links: u8,
    pub max_comments_per_window: u32,
}

/// What becomes of a comment, with the reason.
#[derive(Clone, Copy, Debug, Eq, PartialEq)]
pub enum Screen {
    Visible,
    Shadow(&'static str),
    Blocked(&'static str),
}

/// What becomes of a comment, with the reason as characters.
pub enum ScreenView {
    Visible,
    Shadow(Seq<char>),
    Blocked(Seq<char>),
}

impl View for Screen {
    type V = ScreenView;

    open spec fn view(&self) -> ScreenView {
        match self {
            Screen::Visible => ScreenView::Visible,
            Screen::Shadow(reason) => ScreenView::Shadow(reason@),
            Screen::Blocked(reason) => ScreenView::Blocked(reason@),
        }
    }
}

/// Characters that never reach storage: format characters, and control
/// characters but newline and tab.
pub open spec fn removed(c: char) -> bool {
    unicode::is_format(c) || (unicode::is_control(c) && c != '\n' && c != '\t')
}

/// One character with what Unicode says of it.
#[derive(Clone, Copy, Debug, PartialEq, Eq, Structural)]
pub struct Marked {
    pub character: char,
    pub removed: bool,
    pub space: bool,
}

/// `c` with what Unicode says of it.
pub open spec fn marked(c: char) -> Marked {
    Marked { character: c, removed: removed(c), space: unicode::is_space(c) }
}

/// Every character of a text with what Unicode says of it.
pub open spec fn marked_text(chars: Seq<char>) -> Seq<Marked> {
    Seq::new(chars.len(), |i: int| marked(chars[i]))
}

/// The characters that are kept.
pub open spec fn kept(chars: Seq<Marked>) -> Seq<char>
    decreases chars.len(),
{
    if chars.len() == 0 {
        Seq::empty()
    } else if chars.last().removed {
        kept(chars.drop_last())
    } else {
        kept(chars.drop_last()).push(chars.last().character)
    }
}

/// Some white space separates what was last written from the end.
pub open spec fn trailing_space(chars: Seq<Marked>) -> bool
    decreases chars.len(),
{
    if chars.len() == 0 {
        false
    } else if chars.last().removed {
        trailing_space(chars.drop_last())
    } else {
        chars.last().space && collapsed(chars.drop_last()).len() > 0
    }
}

/// The kept characters with every run of white space made one space, and none
/// at either end.
pub open spec fn collapsed(chars: Seq<Marked>) -> Seq<char>
    decreases chars.len(),
{
    if chars.len() == 0 {
        Seq::empty()
    } else if chars.last().removed || chars.last().space {
        collapsed(chars.drop_last())
    } else if trailing_space(chars.drop_last()) {
        collapsed(chars.drop_last()).push(' ').push(chars.last().character)
    } else {
        collapsed(chars.drop_last()).push(chars.last().character)
    }
}

/// The lower-case mappings of the characters, one after the other.
pub open spec fn lowered(chars: Seq<char>) -> Seq<char>
    decreases chars.len(),
{
    if chars.len() == 0 {
        Seq::empty()
    } else {
        lowered(chars.drop_last()) + unicode::lower_case(chars.last())
    }
}

/// The canonical form under which comments count as duplicates.
pub open spec fn normalized(body: Seq<char>) -> Seq<char> {
    collapsed(marked_text(lowered(unicode::nfkc_form(body))))
}

/// The number of links in a normalized text.
pub open spec fn links(normalized: Seq<char>) -> int {
    text::occurrences(normalized, "http://"@, normalized.len()) + text::occurrences(
        normalized,
        "https://"@,
        normalized.len(),
    )
}

/// `x`, but no more than the greatest `u32`.
pub open spec fn capped_u32(x: int) -> int {
    if x > u32::MAX {
        u32::MAX as int
    } else {
        x
    }
}

/// What becomes of a comment of `length` characters whose normal form is
/// `normalized`: blocking rules come before shadowing rules.
pub open spec fn screening(
    normalized: Seq<char>,
    length: int,
    recent_same_hash: int,
    author_posts_in_window: int,
    rules: ModerationRules,
) -> ScreenView {
    if normalized.len() == 0 {
        ScreenView::Blocked("empty"@)
    } else if capped_u32(length) > rules.max_comment_len_chars {
        ScreenView::Blocked("too_long"@)
    } else if author_posts_in_window >= rules.max_comments_per_window {
        ScreenView::Blocked("rate"@)
    } else if capped_u32(links(normalized)) > rules.max_links {
        ScreenView::Shadow("links"@)
    } else if recent_same_hash > 0 {
        ScreenView::Shadow("duplicate"@)
    } else {
        ScreenView::Visible
    }
}

/// A text of nothing but white space and removed characters is always
/// blocked.
pub proof fn law_nothing_visible_is_blocked(
    chars: Seq<Marked>,
    length: int,
    recent: int,
    posts: int,
    rules: ModerationRules,
)
    requires
        forall|i: int|
            0 <= i < chars.len() ==> (#[trigger] chars[i]).removed || chars[i].space,
    ensures
        collapsed(chars).len() == 0,
        screening(collapsed(chars), length, recent, posts, rules) == ScreenView::Blocked("empty"@),
    decreases chars.len(),
{
    if chars.len() > 0 {
        let head = chars.drop_last();
        assert(chars.last() == chars[chars.len() - 1]);
        assert forall|i: int| 0 <= i < head.len() implies (#[trigger] head[i]).removed
            || head[i].space by {
            assert(head[i] == chars[i]);
        }
        law_nothing_visible_is_blocked(head, length, recent, posts, rules);
    }
}

/// White space around a text and runs of it do not change its canonical form:
/// a second white space character next to a first one adds nothing, and
/// neither does one at the end.
pub proof fn law_extra_space_is_ignored(chars: Seq<Marked>, space: Marked)
    requires
        space.space && !space.removed,
    ensures
        collapsed(chars.push(space)) == collapsed(chars),
        collapsed(chars.push(space).push(space)) == collapsed(chars.push(space)),
        trailing_space(chars.push(space).push(space)) == trailing_space(chars.push(space)),
{
    let once = chars.push(space);
    assert(once.drop_last() =~= chars);
    assert(once.push(space).drop_last() =~= once);
}

/// Removed characters do not change the canonical form.
pub proof fn law_removed_characters_are_ignored(chars: Seq<Marked>, gone: Marked)
    requires
        gone.removed,
    ensures
        collapsed(chars.push(gone)) == collapsed(chars),
        trailing_space(chars.push(gone)) == trailing_space(chars),
        kept(chars.push(gone)) == kept(chars),
{
    assert(chars.push(gone).drop_last() =~= chars);
}

/// A canonical form is free of control characters, its only white space is the
/// space, and it neither begins nor ends with one.
pub proof fn law_normal_form_is_clean(body: Seq<char>, i: int)
    requires
        0 <= i < normalized(body).len(),
    ensures
        !unicode::is_control(normalized(body)[i]),
        unicode::is_space(normalized(body)[i]) ==> normalized(body)[i] == ' ',
        unicode::is_format(normalized(body)[i]) ==> normalized(body)[i] == ' ',
        normalized(body)[0] != ' ',
        normalized(body).last() != ' ',
{
    lemma_collapsed_is_clean(lowered(unicode::nfkc_form(body)));
}

/// A character that is neither removed nor white space, or the space.
spec fn clean(c: char) -> bool {
    c == ' ' || (!removed(c) && !unicode::is_space(c))
}

proof fn lemma_collapsed_is_clean(chars: Seq<char>)
    ensures
        forall|i: int|
            0 <= i < collapsed(marked_text(chars)).len() ==> clean(
                #[trigger] collapsed(marked_text(chars))[i],
            ),
        collapsed(marked_text(chars)).len() > 0 ==> collapsed(marked_text(chars))[0] != ' '
            && collapsed(marked_text(chars)).last() != ' ',
        trailing_space(marked_text(chars)) ==> collapsed(marked_text(chars)).len() > 0,
    decreases chars.len(),
{
    if chars.len() > 0 {
        let head = chars.drop_last();
        assert(marked_text(chars).drop_last() =~= marked_text(head));
        assert(marked_text(chars).last() == marked(chars.last()));
        lemma_collapsed_is_clean(head);
    }
}

/// What is stored holds no removed character, and keeps every other one in
/// order: storing it again changes nothing.
pub proof fn law_stored_text_is_kept(body: Seq<char>)
    ensures
        forall|i: int|
            0 <= i < kept(marked_text(body)).len() ==> !removed(
                #[trigger] kept(marked_text(body))[i],
            ),
        kept(marked_text(kept(marked_text(body)))) == kept(marked_text(body)),
    decreases body.len(),
{
    if body.len() > 0 {
        let head = body.drop_last();
        assert(marked_text(body).drop_last() =~= marked_text(head));
        assert(marked_text(body).last() == marked(body.last()));
        law_stored_text_is_kept(head);
        if !removed(body.last()) {
            let front = kept(marked_text(head));
            let whole = front.push(body.last());
            assert(marked_text(whole).drop_last() =~= marked_text(front));
            assert(marked_text(whole).last() == marked(body.last()));
        }
    }
}

fn mark(character: char) -> (r: Marked)
    ensures
        r == marked(character),
{
    let removed = unicode::format_char(character) || (unicode::control_char(character) && character
        != '\n' && character != '\t');
    Marked { character, removed, space: unicode::space_char(character) }
}

/// The characters that are kept.
pub fn keep_characters(chars: &[Marked]) -> (r: String)
    ensures
        r@ == kept(chars@),
{
    let mut out = String::new();
    let mut i: usize = 0;
    while i < chars.len()
        invariant
            i <= chars.len(),
            out@ == kept(chars@.take(i as int)),
        decreases chars.len() - i,
    {
        assert(chars@.take(i + 1).drop_last() =~= chars@.take(i as int));
        if !chars[i].removed {
            out.push(chars[i].character);
        }
        i += 1;
    }
    assert(chars@.take(i as int) =~= chars@);
    out
}

/// The kept characters with every run of white space made one space, and none
/// at either end.
pub fn collapse_spaces(chars: &[Marked]) -> (r: String)
    ensures
        r@ == collapsed(chars@),
{
    let mut out = String::new();
    let mut pending_space = false;
    let mut i: usize = 0;
    while i < chars.len()
        invariant
            i <= chars.len(),
            out@ == collapsed(chars@.take(i as int)),
            pending_space == trailing_space(chars@.take(i as int)),
        decreases chars.len() - i,
    {
        assert(chars@.take(i + 1).drop_last() =~= chars@.take(i as int));
        let next = chars[i];
        if !next.removed {
            if next.space {
                pending_space = !out.as_str().is_empty();
            } else {
                if pending_space {
                    out.push(' ');
                    pending_space = false;
                }
                out.push(next.character);
            }
        }
        i += 1;
    }
    assert(chars@.take(i as int) =~= chars@);
    out
}

/// The canonical form under which comments count as duplicates: normalization
/// form KC, lower case, without format and control characters, white space
/// collapsed.
#[must_use]
pub fn normalize_body(body: &str) -> (r: String)
    ensures
        r@ == normalized(body@),
{
    let composed = unicode::nfkc(body);
    let mut marks: Vec<Marked> = Vec::new();
    let mut i: usize = 0;
    while i < composed.len()
        invariant
            i <= composed.len(),
            marks@ == marked_text(lowered(composed@.take(i as int))),
        decreases composed.len() - i,
    {
        let small = unicode::lower_chars(composed[i]);
        let ghost before = lowered(composed@.take(i as int));
        assert(composed@.take(i + 1).drop_last() =~= composed@.take(i as int));
        let mut k: usize = 0;
        while k < small.len()
            invariant
                k <= small.len(),
                marks@ == marked_text(before + small@.take(k as int)),
            decreases small.len() - k,
        {
            marks.push(mark(small[k]));
            assert(before + small@.take(k + 1) =~= (before + small@.take(k as int)).push(
                small@[k as int],
            ));
            assert(marks@ =~= marked_text(before + small@.take(k + 1)));
            k += 1;
        }
        assert(small@.take(k as int) =~= small@);
        i += 1;
    }
    assert(composed@.take(i as int) =~= composed@);
    collapse_spaces(marks.as_slice())
}

/// The text as it is stored: without format and control characters.
#[must_use]
pub fn sanitize_for_storage(body: &str) -> (r: String)
    ensures
        r@ == kept(marked_text(body@)),
{
    let chars = text::chars_of(body);
    let mut marks: Vec<Marked> = Vec::new();
    let mut i: usize = 0;
    while i < chars.len()
        invariant
            i <= chars.len(),
            marks@ == marked_text(chars@.take(i as int)),
        decreases chars.len() - i,
    {
        marks.push(mark(chars[i]));
        assert(marks@ =~= marked_text(chars@.take(i + 1)));
        i += 1;
    }
    assert(chars@.take(i as int) =~= chars@);
    keep_characters(marks.as_slice())
}

/// The lower-case hexadecimal SHA-256 of the canonical form.
#[must_use]
pub fn body_hash(body: &str) -> (r: String)
    ensures
        r@ == digest::sha256_text(vstd::utf8::encode_utf8(normalized(body@))),
{
    let normal = normalize_body(body);
    digest::sha256_hex(normal.as_str().as_bytes())
}

/// Comments with the same canonical form have the same hash.
pub proof fn law_equal_forms_have_equal_hashes(a: Seq<char>, b: Seq<char>)
    requires
        normalized(a) == normalized(b),
    ensures
        digest::sha256_text(vstd::utf8::encode_utf8(normalized(a))) == digest::sha256_text(
            vstd::utf8::encode_utf8(normalized(b)),
        ),
{
}

/// The number of links in a normalized text.
#[must_use]
pub fn link_count(normalized: &str) -> (r: u32)
    ensures
        r == capped_u32(links(normalized@)),
{
    let chars = text::chars_of(normalized);
    let plain = text::chars_of("http://");
    let secure = text::chars_of("https://");
    let a: usize = text::count_occurrences(chars.as_slice(), plain.as_slice());
    let b: usize = text::count_occurrences(chars.as_slice(), secure.as_slice());
    let total: u128 = a as u128 + b as u128;
    if total > u32::MAX as u128 {
        u32::MAX
    } else {
        total as u32
    }
}

/// Screens a comment of `length` characters whose canonical form is given.
#[must_use]
pub fn screen_normalized(
    normalized: &str,
    length: usize,
    recent_same_hash: u32,
    author_posts_in_window: u32,
    rules: &ModerationRules,
) -> (r: Screen)
    ensures
        r@ == screening(
            normalized@,
            length as int,
            recent_same_hash as int,
            author_posts_in_window as int,
            *rules,
        ),
{
    if normalized.is_empty() {
        return Screen::Blocked("empty");
    }
    let chars: u32 = if length > u32::MAX as usize {
        u32::MAX
    } else {
        length as u32
    };
    if chars > rules.max_comment_len_chars {
        return Screen::Blocked("too_long");
    }
    if author_posts_in_window >= rules.max_comments_per_window {
        return Screen::Blocked("rate");
    }
    if link_count(normalized) > rules.max_links as u32 {
        return Screen::Shadow("links");
    }
    if recent_same_hash > 0 {
        return Screen::Shadow("duplicate");
    }
    Screen::Visible
}

/// Screens a comment: what it says, how often the same was said, and how much
/// its author posted.
#[must_use]
pub fn screen(
    body: &str,
    recent_same_hash: u32,
    author_posts_in_window: u32,
    rules: &ModerationRules,
) -> (r: Screen)
    ensures
        r@ == screening(
            normalized(body@),
            body@.len() as int,
            recent_same_hash as int,
            author_posts_in_window as int,
            *rules,
        ),
{
    let normal = normalize_body(body);
    screen_normalized(
        normal.as_str(),
        body.unicode_len(),
        recent_same_hash,
        author_posts_in_window,
        rules,
    )
}

/// What a comment is answered with, over its own numbers: nothing to read, too
/// many characters or too many posts block it, in this order; then too many links
/// or a text said before shadow it; everything else is visible.
pub proof fn law_what_a_comment_is_answered_with(
    normal: Seq<char>,
    length: int,
    recent_same_hash: int,
    posts: int,
    rules: ModerationRules,
)
    requires
        0 <= length <= u32::MAX,
        0 <= recent_same_hash,
    ensures
        screening(normal, length, recent_same_hash, posts, rules) == ScreenView::Visible <==> normal
            != Seq::<char>::empty() && length <= rules.max_comment_len_chars && posts
            < rules.max_comments_per_window && links(normal) <= rules.max_links && recent_same_hash
            == 0,
        normal.len() == 0 ==> screening(normal, length, recent_same_hash, posts, rules)
            == ScreenView::Blocked("empty"@),
        normal.len() > 0 && length > rules.max_comment_len_chars ==> screening(
            normal,
            length,
            recent_same_hash,
            posts,
            rules,
        ) == ScreenView::Blocked("too_long"@),
        normal.len() > 0 && length <= rules.max_comment_len_chars && posts
            >= rules.max_comments_per_window ==> screening(
            normal,
            length,
            recent_same_hash,
            posts,
            rules,
        ) == ScreenView::Blocked("rate"@),
        normal.len() > 0 && length <= rules.max_comment_len_chars && posts
            < rules.max_comments_per_window && links(normal) > rules.max_links ==> screening(
            normal,
            length,
            recent_same_hash,
            posts,
            rules,
        ) == ScreenView::Shadow("links"@),
        normal.len() > 0 && length <= rules.max_comment_len_chars && posts
            < rules.max_comments_per_window && links(normal) <= rules.max_links && recent_same_hash
            > 0 ==> screening(normal, length, recent_same_hash, posts, rules) == ScreenView::Shadow(
            "duplicate"@,
        ),
{
    if normal.len() == 0 {
        assert(normal =~= Seq::<char>::empty());
    }
}

/// Links are the places at which either scheme stands.
pub proof fn law_links_are_counted_by_their_scheme(
    normal: Seq<char>,
    plain: Set<int>,
    secure: Set<int>,
)
    requires
        forall|i: int| #[trigger]
            plain.contains(i) <==> 0 <= i && i + 7 <= normal.len() && normal.subrange(i, i + 7)
                == "http://"@,
        forall|i: int| #[trigger]
            secure.contains(i) <==> 0 <= i && i + 8 <= normal.len() && normal.subrange(i, i + 8)
                == "https://"@,
    ensures
        links(normal) == plain.len() + secure.len(),
{
    reveal_strlit("http://");
    reveal_strlit("https://");
    lemma_places(normal, "http://"@, plain);
    lemma_places(normal, "https://"@, secure);
}

proof fn lemma_places(whole: Seq<char>, part: Seq<char>, places: Set<int>)
    requires
        part.len() > 0,
        forall|i: int| #[trigger]
            places.contains(i) <==> 0 <= i && i + part.len() <= whole.len() && whole.subrange(
                i,
                i + part.len(),
            ) == part,
    ensures
        text::occurrences(whole, part, whole.len()) == places.len(),
{
    let n = whole.len();
    text::law_occurrences_are_positions(whole, part, n);
    assert(places =~= Set::new(
        |i: int|
            0 <= i < n && i + part.len() <= whole.len() && whole.subrange(i, i + part.len())
                == part,
    ));
}

/// Which characters never reach storage: every format character, and every
/// control character but the newline and the tab.
pub proof fn law_which_characters_are_removed(c: char)
    ensures
        unicode::is_format(c) ==> marked(c).removed,
        !unicode::is_format(c) ==> (marked(c).removed <==> (c < ' ' && c != '\n' && c != '\t') || (
        '\u{7f}' <= c <= '\u{9f}')),
        marked(c).character == c,
{
}

/// Storing keeps each character that is not removed, in its place, and leaves
/// every removed one out.
pub proof fn law_storage_keeps_the_rest_in_order(chars: Seq<Marked>, next: Marked)
    ensures
        next.removed ==> kept(chars.push(next)) == kept(chars),
        !next.removed ==> kept(chars.push(next)) == kept(chars).push(next.character),
        kept(Seq::<Marked>::empty()) == Seq::<char>::empty(),
{
    assert(chars.push(next).drop_last() =~= chars);
}

/// Words stay as they are, with one space between them: a character behind
/// another goes right behind it, and one behind white space goes behind a single
/// space, unless nothing stands before it.
pub proof fn law_words_are_joined_by_one_space(
    chars: Seq<Marked>,
    word: Marked,
    space: Marked,
    next: Marked,
)
    requires
        !word.removed && !word.space,
        !space.removed && space.space,
        !next.removed && !next.space,
    ensures
        collapsed(seq![word]) == seq![word.character],
        collapsed(chars.push(word).push(next)) == collapsed(chars.push(word)).push(next.character),
        collapsed(chars.push(word).push(space).push(next)) == collapsed(chars.push(word)).push(
            ' ',
        ).push(next.character),
        collapsed(chars.push(word)).last() == word.character,
        collapsed(seq![space, next]) == seq![next.character],
{
    let one = chars.push(word);
    assert(one.drop_last() =~= chars);
    assert(one.push(next).drop_last() =~= one);
    let two = one.push(space);
    assert(two.drop_last() =~= one);
    assert(two.push(next).drop_last() =~= two);
    assert(collapsed(one).len() > 0);
    assert(!trailing_space(one));
    assert(trailing_space(two));
    assert(collapsed(two) == collapsed(one));
    assert(seq![word].drop_last() =~= Seq::<Marked>::empty());
    assert(!trailing_space(Seq::<Marked>::empty()));
    assert(collapsed(Seq::<Marked>::empty()) =~= Seq::<char>::empty());
    assert(collapsed(seq![word]) =~= seq![word.character]);
    assert(seq![space, next].drop_last() =~= seq![space]);
    assert(seq![space].drop_last() =~= Seq::<Marked>::empty());
    assert(collapsed(seq![space]) =~= Seq::<char>::empty());
    assert(!trailing_space(seq![space]));
    assert(collapsed(seq![space, next]) =~= seq![next.character]);
}

/// The canonical form is of the composed text in lower case: characters that
/// differ only in their case, or only in how they are composed, count as the
/// same.
pub proof fn law_normal_form_ignores_case(body: Seq<char>, c: char, low: char)
    requires
        unicode::nfkc_form(body) == seq![c],
        unicode::lower_case(c) == seq![low],
        !unicode::is_format(low),
        '!' <= low <= '~',
    ensures
        normalized(body) == seq![low],
{
    let composed = seq![c];
    assert(composed.drop_last() =~= Seq::<char>::empty());
    assert(lowered(Seq::<char>::empty()) =~= Seq::<char>::empty());
    assert(lowered(composed) =~= seq![low]);
    let marks = marked_text(seq![low]);
    assert(marks =~= seq![marked(low)]);
    law_words_are_joined_by_one_space(
        Seq::empty(),
        marked(low),
        Marked { character: ' ', removed: false, space: true },
        marked(low),
    );
}

/// Each character goes to lower case on its own.
pub proof fn law_lower_case_is_by_character(chars: Seq<char>, next: char)
    ensures
        lowered(chars.push(next)) == lowered(chars) + unicode::lower_case(next),
        lowered(Seq::<char>::empty()) == Seq::<char>::empty(),
{
    assert(chars.push(next).drop_last() =~= chars);
}

} // verus!
