//! Clean-up of novel text: the bracketed directives that the platform mixes
//! into a novel's content are taken out, and runs of newlines are merged.

use crate::trusted::string_of;
use vstd::prelude::*;

verus! {

/// The directive that stands alone.
pub open spec fn newpage_word() -> Seq<char> {
    "[newpage]"@
}

/// The opening of a chapter directive; its argument and `]` follow.
pub open spec fn chapter_word() -> Seq<char> {
    "[chapter"@
}

/// The opening of an image directive; its argument and `]` follow.
pub open spec fn image_word() -> Seq<char> {
    "[uploadedimage"@
}

/// `word` stands in `s` from position `i` on.
pub open spec fn holds_at(s: Seq<char>, i: int, word: Seq<char>) -> bool {
    &&& 0 <= i
    &&& i + word.len() <= s.len()
    &&& forall|k: int| 0 <= k < word.len() ==> s[i + k] == #[trigger] word[k]
}

/// `c` may stand in the argument of a directive: it is neither the bracket
/// that closes the directive nor a newline.
pub open spec fn in_argument(c: char) -> bool {
    c != ']' && c != '\n'
}

/// `s[i..j)` is `head`, then an argument of one or more characters, then
/// the `]` that closes the directive.
pub open spec fn tagged_at(s: Seq<char>, i: int, j: int, head: Seq<char>) -> bool {
    &&& holds_at(s, i, head)
    &&& i + head.len() + 2 <= j <= s.len()
    &&& s[j - 1] == ']'
    &&& forall|k: int| i + head.len() <= k < j - 1 ==> in_argument(#[trigger] s[k])
}

/// `s[i..j)` is a directive: `[newpage]`, `[chapter…]` or `[uploadedimage…]`.
pub open spec fn directive_at(s: Seq<char>, i: int, j: int) -> bool {
    ||| (holds_at(s, i, newpage_word()) && j == i + newpage_word().len())
    ||| tagged_at(s, i, j, chapter_word())
    ||| tagged_at(s, i, j, image_word())
}

/// Some part of `s` is a directive.
pub open spec fn has_directive(s: Seq<char>) -> bool {
    exists|i: int, j: int| directive_at(s, i, j)
}

/// Two newlines stand side by side somewhere in `s`.
pub open spec fn has_blank_line(s: Seq<char>) -> bool {
    exists|i: int| 0 <= i && i + 1 < s.len() && #[trigger] s[i] == '\n' && s[i + 1] == '\n'
}

/// Nothing is left to clean in `s`.
pub open spec fn is_clean(s: Seq<char>) -> bool {
    !has_directive(s) && !has_blank_line(s)
}

/// Where the argument that begins at `k` ends: at the first `]` or newline
/// at or after `k`, or at the end of `s`.
pub open spec fn arg_end(s: Seq<char>, k: int) -> int
    decreases s.len() - k,
{
    if 0 <= k < s.len() && in_argument(s[k]) {
        arg_end(s, k + 1)
    } else {
        k
    }
}

/// The end of the directive with the opening `head` that starts at `i`; 0
/// if there is none.
pub open spec fn tag_end(s: Seq<char>, i: int, head: Seq<char>) -> int {
    let from = i + head.len();
    let e = arg_end(s, from);
    if holds_at(s, i, head) && from < e < s.len() && s[e] == ']' {
        e + 1
    } else {
        0
    }
}

/// The end of the directive that starts at `i`; 0 if none does.
pub open spec fn directive_end(s: Seq<char>, i: int) -> int {
    if holds_at(s, i, newpage_word()) {
        i + newpage_word().len()
    } else if tag_end(s, i, chapter_word()) > 0 {
        tag_end(s, i, chapter_word())
    } else {
        tag_end(s, i, image_word())
    }
}

/// The first position at or after `i` where a directive starts; the length
/// of `s` if there is none.
pub open spec fn first_directive(s: Seq<char>, i: int) -> int
    decreases s.len() - i,
{
    if i < 0 || i >= s.len() {
        s.len() as int
    } else if directive_end(s, i) > 0 {
        i
    } else {
        first_directive(s, i + 1)
    }
}

/// `s` without the part `s[i..j)`.
pub open spec fn cut(s: Seq<char>, i: int, j: int) -> Seq<char> {
    s.subrange(0, i) + s.subrange(j, s.len() as int)
}

/// `s` after its first directive was taken out, again and again, until none
/// is left.
pub open spec fn without_directives(s: Seq<char>) -> Seq<char>
    decreases s.len(),
{
    let i = first_directive(s, 0);
    let j = directive_end(s, i);
    if 0 <= i < j <= s.len() {
        without_directives(cut(s, i, j))
    } else {
        s
    }
}

/// `s` with each run of newlines merged into one.
pub open spec fn merged_newlines(s: Seq<char>) -> Seq<char>
    decreases s.len(),
{
    if s.len() == 0 {
        s
    } else {
        let before = merged_newlines(s.drop_last());
        if s.last() == '\n' && before.len() > 0 && before.last() == '\n' {
            before
        } else {
            before.push(s.last())
        }
    }
}

/// The clean form of `s`: no directive, no run of newlines.
pub open spec fn cleaned(s: Seq<char>) -> Seq<char> {
    merged_newlines(without_directives(s))
}

/// Nothing but the argument stands in `s[k..arg_end)`, and it ends at a
/// `]`, at a newline or at the end of `s`.
pub proof fn lemma_arg_end(s: Seq<char>, k: int)
    requires
        0 <= k <= s.len(),
    ensures
        k <= arg_end(s, k) <= s.len(),
        forall|m: int| k <= m < arg_end(s, k) ==> in_argument(#[trigger] s[m]),
        arg_end(s, k) < s.len() ==> !in_argument(s[arg_end(s, k)]),
    decreases s.len() - k,
{
    if k < s.len() && in_argument(s[k]) {
        lemma_arg_end(s, k + 1);
    }
}

/// Where `tag_end` is not 0, a directive with that opening ends there.
pub proof fn lemma_tag_end_sound(s: Seq<char>, i: int, head: Seq<char>)
    requires
        tag_end(s, i, head) > 0,
    ensures
        tagged_at(s, i, tag_end(s, i, head), head),
{
    lemma_arg_end(s, i + head.len());
}

/// A directive with that opening that starts at `i` ends at `tag_end` and
/// nowhere else.
pub proof fn lemma_tag_end_only(s: Seq<char>, i: int, j: int, head: Seq<char>)
    requires
        tagged_at(s, i, j, head),
    ensures
        tag_end(s, i, head) == j,
{
    let from = i + head.len();
    let e = arg_end(s, from);
    lemma_arg_end(s, from);
    if e < j - 1 {
        assert(in_argument(s[e]));
    }
    if e > j - 1 {
        assert(in_argument(s[j - 1]));
    }
}

/// Where `directive_end` is not 0, a directive from `i` ends there.
pub proof fn lemma_directive_end_sound(s: Seq<char>, i: int)
    requires
        directive_end(s, i) > 0,
    ensures
        i < directive_end(s, i) <= s.len(),
        directive_at(s, i, directive_end(s, i)),
{
    if holds_at(s, i, newpage_word()) {
        reveal_strlit("[newpage]");
    } else if tag_end(s, i, chapter_word()) > 0 {
        lemma_tag_end_sound(s, i, chapter_word());
    } else {
        lemma_tag_end_sound(s, i, image_word());
    }
}

/// Where a directive starts at `i`, `directive_end` is not 0.
pub proof fn lemma_directive_end_complete(s: Seq<char>, i: int, j: int)
    requires
        directive_at(s, i, j),
    ensures
        directive_end(s, i) > 0,
{
    reveal_strlit("[newpage]");
    if holds_at(s, i, newpage_word()) {
    } else if tagged_at(s, i, j, chapter_word()) {
        lemma_tag_end_only(s, i, j, chapter_word());
    } else {
        lemma_tag_end_only(s, i, j, image_word());
    }
}

/// No directive starts between `i` and `first_directive`, and one starts
/// there unless it is the end of `s`.
pub proof fn lemma_first_directive(s: Seq<char>, i: int)
    requires
        0 <= i <= s.len(),
    ensures
        i <= first_directive(s, i) <= s.len(),
        forall|k: int| i <= k < first_directive(s, i) ==> #[trigger] directive_end(s, k) == 0,
        first_directive(s, i) < s.len() ==> directive_end(s, first_directive(s, i)) > 0,
    decreases s.len() - i,
{
    if i < s.len() && directive_end(s, i) <= 0 {
        lemma_directive_end_nonneg(s, i);
        lemma_first_directive(s, i + 1);
    }
}

/// `directive_end` is never negative.
pub proof fn lemma_directive_end_nonneg(s: Seq<char>, i: int)
    ensures
        directive_end(s, i) >= 0,
{
    if holds_at(s, i, chapter_word()) {
        lemma_arg_end(s, i + chapter_word().len());
    }
    if holds_at(s, i, image_word()) {
        lemma_arg_end(s, i + image_word().len());
    }
}

/// `s` holds a directive exactly if `first_directive` finds one.
pub proof fn lemma_has_directive(s: Seq<char>)
    ensures
        has_directive(s) <==> first_directive(s, 0) < s.len(),
{
    lemma_first_directive(s, 0);
    let f = first_directive(s, 0);
    if f < s.len() {
        lemma_directive_end_sound(s, f);
    }
    if has_directive(s) {
        let (i, j) = choose|i: int, j: int| directive_at(s, i, j);
        lemma_directive_end_complete(s, i, j);
        reveal_strlit("[newpage]");
        assert(0 <= i < s.len());
    }
}

/// Taking directives out until none is left leaves none.
pub proof fn lemma_without_directives(s: Seq<char>)
    ensures
        !has_directive(without_directives(s)),
        without_directives(s).len() <= s.len(),
    decreases s.len(),
{
    let i = first_directive(s, 0);
    let j = directive_end(s, i);
    lemma_first_directive(s, 0);
    lemma_has_directive(s);
    if 0 <= i < j <= s.len() {
        lemma_without_directives(cut(s, i, j));
    } else if i < s.len() {
        lemma_directive_end_sound(s, i);
    }
}

/// A directive in the front part of a text is a directive in the text.
pub proof fn lemma_directive_in_prefix(s: Seq<char>, n: int)
    requires
        0 <= n <= s.len(),
        has_directive(s.take(n)),
    ensures
        has_directive(s),
{
    let p = s.take(n);
    let (i, j) = choose|i: int, j: int| directive_at(p, i, j);
    reveal_strlit("[newpage]");
    assert(0 <= i <= j <= n);
    assert forall|head: Seq<char>| holds_at(p, i, head) implies holds_at(s, i, head) by {
        assert forall|k: int| 0 <= k < head.len() implies s[i + k] == #[trigger] head[k] by {
            assert(p[i + k] == head[k]);
        }
    }
    assert forall|head: Seq<char>| tagged_at(p, i, j, head) implies tagged_at(s, i, j, head) by {
        assert(holds_at(s, i, head));
        assert(p[j - 1] == s[j - 1]);
        assert forall|k: int| i + head.len() <= k < j - 1 implies in_argument(#[trigger] s[k]) by {
            assert(in_argument(p[k]));
        }
    }
    assert(directive_at(s, i, j));
}

/// Merging leaves no two newlines side by side.
pub proof fn lemma_merged_no_blank_line(s: Seq<char>)
    ensures
        !has_blank_line(merged_newlines(s)),
    decreases s.len(),
{
    if s.len() > 0 {
        let before = merged_newlines(s.drop_last());
        let t = merged_newlines(s);
        lemma_merged_no_blank_line(s.drop_last());
        if t != before {
            assert forall|i: int| 0 <= i && i + 1 < t.len() implies !(#[trigger] t[i] == '\n' && t[i
                + 1] == '\n') by {
                if i + 1 < before.len() {
                    assert(before[i] == t[i] && before[i + 1] == t[i + 1]);
                }
            }
        }
    }
}

/// A tail of the merged text that holds no newline is the tail of the text.
pub proof fn lemma_merged_tail(s: Seq<char>, n: int)
    requires
        0 <= n <= merged_newlines(s).len(),
        forall|k: int|
            merged_newlines(s).len() - n <= k < merged_newlines(s).len()
                ==> #[trigger] merged_newlines(s)[k] != '\n',
    ensures
        n <= s.len(),
        forall|k: int|
            merged_newlines(s).len() - n <= k < merged_newlines(s).len() ==> s[k + (s.len()
                - merged_newlines(s).len())] == #[trigger] merged_newlines(s)[k],
    decreases s.len(),
{
    let t = merged_newlines(s);
    if n > 0 {
        assert(t[t.len() - 1] != '\n');
        let rest = s.drop_last();
        let before = merged_newlines(rest);
        assert(t == before.push(s.last()));
        assert forall|k: int| before.len() - (n - 1) <= k < before.len() implies #[trigger] before[k]
            != '\n' by {
            assert(t[k] == before[k]);
        }
        lemma_merged_tail(rest, n - 1);
        assert forall|k: int| t.len() - n <= k < t.len() implies s[k + (s.len() - t.len())]
            == #[trigger] t[k] by {
            if k < t.len() - 1 {
                assert(rest[k + (rest.len() - before.len())] == before[k]);
            }
        }
    }
}

/// Merging newlines makes no directive.
pub proof fn lemma_merged_keeps_directives_out(s: Seq<char>)
    requires
        !has_directive(s),
    ensures
        !has_directive(merged_newlines(s)),
    decreases s.len(),
{
    let t = merged_newlines(s);
    if s.len() > 0 && has_directive(t) {
        let before = merged_newlines(s.drop_last());
        if has_directive(s.drop_last()) {
            assert(s.drop_last() == s.take(s.len() - 1));
            lemma_directive_in_prefix(s, s.len() - 1);
        }
        lemma_merged_keeps_directives_out(s.drop_last());
        if t != before {
            assert(before == t.take(before.len() as int));
            let (i, j) = choose|i: int, j: int| directive_at(t, i, j);
            reveal_strlit("[newpage]");
            reveal_strlit("[chapter");
            reveal_strlit("[uploadedimage");
            assert(0 <= i < j <= t.len());
            if j < t.len() {
                lemma_directive_within(t, i, j, before.len() as int);
            } else {
                let n = j - i;
                let d = s.len() - t.len();
                let head = if holds_at(t, i, newpage_word()) && j == i + newpage_word().len() {
                    newpage_word()
                } else if tagged_at(t, i, j, chapter_word()) {
                    chapter_word()
                } else {
                    image_word()
                };
                assert(holds_at(t, i, head));
                assert forall|k: int| t.len() - n <= k < t.len() implies #[trigger] t[k]
                    != '\n' by {
                    if k < i + head.len() {
                        assert(t[i + (k - i)] == head[k - i]);
                    } else if k < j - 1 {
                        assert(in_argument(t[k]));
                    }
                }
                lemma_merged_tail(s, n);
                assert forall|w: Seq<char>| holds_at(t, i, w) && w.len() <= n implies holds_at(
                    s,
                    i + d,
                    w,
                ) by {
                    assert forall|k: int| 0 <= k < w.len() implies s[i + d + k] == #[trigger] w[k] by {
                        assert(t[i + k] == w[k]);
                        assert(s[(i + k) + d] == t[i + k]);
                    }
                }
                assert forall|w: Seq<char>| tagged_at(t, i, j, w) implies tagged_at(
                    s,
                    i + d,
                    s.len() as int,
                    w,
                ) by {
                    assert(holds_at(s, i + d, w));
                    assert(s[(j - 1) + d] == t[j - 1]);
                    assert forall|k: int| i + d + w.len() <= k < s.len() - 1 implies in_argument(
                        #[trigger] s[k],
                    ) by {
                        assert(s[(k - d) + d] == t[k - d]);
                        assert(in_argument(t[k - d]));
                    }
                }
                assert(directive_at(s, i + d, s.len() as int));
            }
        }
    }
}

/// A directive that ends within the first `n` characters is a directive of
/// that front part.
pub proof fn lemma_directive_within(s: Seq<char>, i: int, j: int, n: int)
    requires
        directive_at(s, i, j),
        0 <= i,
        j <= n <= s.len(),
    ensures
        has_directive(s.take(n)),
{
    let p = s.take(n);
    reveal_strlit("[newpage]");
    assert forall|head: Seq<char>| holds_at(s, i, head) && i + head.len() <= n implies holds_at(
        p,
        i,
        head,
    ) by {
        assert forall|k: int| 0 <= k < head.len() implies p[i + k] == #[trigger] head[k] by {
            assert(s[i + k] == head[k]);
        }
    }
    assert forall|head: Seq<char>| tagged_at(s, i, j, head) implies tagged_at(p, i, j, head) by {
        assert(holds_at(p, i, head));
        assert(p[j - 1] == s[j - 1]);
        assert forall|k: int| i + head.len() <= k < j - 1 implies in_argument(#[trigger] p[k]) by {
            assert(in_argument(s[k]));
        }
    }
    assert(directive_at(p, i, j));
}

/// The clean form is clean, and no longer than the text.
pub proof fn lemma_cleaned_is_clean(s: Seq<char>)
    ensures
        is_clean(cleaned(s)),
{
    lemma_without_directives(s);
    lemma_merged_keeps_directives_out(without_directives(s));
    lemma_merged_no_blank_line(without_directives(s));
}

/// Reads the characters of `text` into a vector.
pub fn chars_of(text: &str) -> (out: Vec<char>)
    ensures
        out@ == text@,
{
    broadcast use vstd::string::group_string_axioms;

    let mut out: Vec<char> = Vec::new();
    for c in it: text.chars()
        invariant
            it.seq() == text@,
            out@ == it.seq().take(it.index()),
    {
        out.push(c);
    }
    out
}

/// Whether `word` stands in `v` from position `i` on.
pub fn holds(v: &Vec<char>, i: usize, word: &Vec<char>) -> (b: bool)
    ensures
        b == holds_at(v@, i as int, word@),
        b ==> i + word.len() <= v.len(),
{
    if word.len() > v.len() || i > v.len() - word.len() {
        return false;
    }
    let mut k: usize = 0;
    while k < word.len()
        invariant
            k <= word.len(),
            i + word.len() <= v.len(),
            forall|m: int| 0 <= m < k ==> v@[i + m] == #[trigger] word@[m],
        decreases word.len() - k,
    {
        if v[i + k] != word[k] {
            return false;
        }
        k += 1;
    }
    true
}

/// Where the argument that begins at `k` of `v` ends.
pub fn find_arg_end(v: &Vec<char>, k: usize) -> (e: usize)
    requires
        k <= v.len(),
    ensures
        e == arg_end(v@, k as int),
        k <= e <= v.len(),
{
    let mut e: usize = k;
    while e < v.len() && v[e] != ']' && v[e] != '\n'
        invariant
            k <= e <= v.len(),
            arg_end(v@, e as int) == arg_end(v@, k as int),
        decreases v.len() - e,
    {
        e += 1;
    }
    e
}

/// The end of the directive with the opening `head` at `i`, or 0.
pub fn find_tag_end(v: &Vec<char>, i: usize, head: &Vec<char>) -> (r: usize)
    ensures
        r == tag_end(v@, i as int, head@),
{
    if holds(v, i, head) {
        let from: usize = i + head.len();
        let e: usize = find_arg_end(v, from);
        if from < e && e < v.len() && v[e] == ']' {
            e + 1
        } else {
            0
        }
    } else {
        0
    }
}

/// The three words that open a directive, as characters.
pub struct Words {
    pub newpage: Vec<char>,
    pub chapter: Vec<char>,
    pub image: Vec<char>,
}

impl Words {
    /// The fields hold the three words.
    pub open spec fn wf(&self) -> bool {
        &&& self.newpage@ == newpage_word()
        &&& self.chapter@ == chapter_word()
        &&& self.image@ == image_word()
    }

    /// The three words, read from their text.
    pub fn new() -> (w: Words)
        ensures
            w.wf(),
    {
        Words {
            newpage: chars_of("[newpage]"),
            chapter: chars_of("[chapter"),
            image: chars_of("[uploadedimage"),
        }
    }
}

/// The end of the directive of `v` that starts at `i`, or 0.
pub fn find_directive_end(v: &Vec<char>, i: usize, words: &Words) -> (r: usize)
    requires
        words.wf(),
    ensures
        r == directive_end(v@, i as int),
{
    if holds(v, i, &words.newpage) {
        i + words.newpage.len()
    } else {
        let r: usize = find_tag_end(v, i, &words.chapter);
        if r > 0 {
            r
        } else {
            find_tag_end(v, i, &words.image)
        }
    }
}

/// The first directive of `v`: where it starts and where it ends. Where `v`
/// holds none, the start is the length of `v`.
pub fn find_directive(v: &Vec<char>, words: &Words) -> (found: (usize, usize))
    requires
        words.wf(),
    ensures
        found.0 == first_directive(v@, 0),
        found.0 < v.len() ==> found.1 == directive_end(v@, found.0 as int),
{
    let mut i: usize = 0;
    while i < v.len()
        invariant
            i <= v.len(),
            words.wf(),
            first_directive(v@, i as int) == first_directive(v@, 0),
        decreases v.len() - i,
    {
        let j: usize = find_directive_end(v, i, words);
        if j > 0 {
            return (i, j);
        }
        i += 1;
    }
    (i, 0)
}

/// `v` without the part from `i` up to `j`.
pub fn remove_part(v: &Vec<char>, i: usize, j: usize) -> (out: Vec<char>)
    requires
        i <= j <= v.len(),
    ensures
        out@ == cut(v@, i as int, j as int),
{
    let mut out: Vec<char> = Vec::new();
    let mut k: usize = 0;
    while k < i
        invariant
            k <= i <= v.len(),
            out@ == v@.subrange(0, k as int),
        decreases i - k,
    {
        out.push(v[k]);
        k += 1;
    }
    k = j;
    while k < v.len()
        invariant
            i <= j <= k <= v.len(),
            out@ == v@.subrange(0, i as int) + v@.subrange(j as int, k as int),
        decreases v.len() - k,
    {
        out.push(v[k]);
        k += 1;
    }
    out
}

/// Takes the directives out of `v` until none is left.
pub fn strip_directives(v: Vec<char>) -> (out: Vec<char>)
    ensures
        out@ == without_directives(v@),
{
    let words = Words::new();
    let mut cur: Vec<char> = v;
    loop
        invariant
            words.wf(),
            without_directives(cur@) == without_directives(v@),
        decreases cur.len(),
    {
        let (i, j) = find_directive(&cur, &words);
        if i >= cur.len() {
            return cur;
        }
        proof {
            lemma_first_directive(cur@, 0);
            lemma_directive_end_sound(cur@, i as int);
        }
        cur = remove_part(&cur, i, j);
    }
}

/// Merges each run of newlines of `v` into one.
pub fn merge_newlines(v: &Vec<char>) -> (out: Vec<char>)
    ensures
        out@ == merged_newlines(v@),
{
    let mut out: Vec<char> = Vec::new();
    let mut k: usize = 0;
    while k < v.len()
        invariant
            k <= v.len(),
            out@ == merged_newlines(v@.take(k as int)),
        decreases v.len() - k,
    {
        let c: char = v[k];
        proof {
            assert(v@.take(k + 1).drop_last() == v@.take(k as int));
        }
        if !(c == '\n' && out.len() > 0 && out[out.len() - 1] == '\n') {
            out.push(c);
        }
        k += 1;
    }
    proof {
        assert(v@.take(v.len() as int) == v@);
    }
    out
}

/// The clean form of `text`: every directive taken out, until none is left,
/// and every run of newlines merged into one.
pub fn clean(text: &str) -> (out: String)
    ensures
        out@ == cleaned(text@),
        is_clean(out@),
{
    let stripped = strip_directives(chars_of(text));
    let merged = merge_newlines(&stripped);
    proof {
        lemma_cleaned_is_clean(text@);
    }
    string_of(&merged)
}

} // verus!
