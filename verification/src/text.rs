//! Strings as sequences of characters.

use vstd::prelude::*;

verus! {

/// `String::push`: the string afterwards is the string before, with `ch` behind it.
pub assume_specification[ String::push ](text: &mut String, ch: char)
    ensures
        final(text)@ == old(text)@.push(ch),
;

/// The texts of a sequence of strings.
pub open spec fn texts(strings: Seq<String>) -> Seq<Seq<char>> {
    strings.map_values(|s: String| s@)
}

/// The text of a string that may be absent.
pub open spec fn optional_text(string: Option<String>) -> Option<Seq<char>> {
    match string {
        Some(s) => Some(s@),
        None => None,
    }
}

/// The texts of a sequence of strings grow with it.
pub proof fn lemma_texts_push(strings: Seq<String>, string: String)
    ensures
        texts(strings.push(string)) == texts(strings).push(string@),
{
    assert(texts(strings.push(string)) =~= texts(strings).push(string@));
}

/// Unicode's `White_Space` property.
pub open spec fn is_white_space(ch: char) -> bool {
    ||| '\u{9}' <= ch <= '\u{d}'
    ||| ch == ' '
    ||| ch == '\u{85}'
    ||| ch == '\u{a0}'
    ||| ch == '\u{1680}'
    ||| '\u{2000}' <= ch <= '\u{200a}'
    ||| ch == '\u{2028}'
    ||| ch == '\u{2029}'
    ||| ch == '\u{202f}'
    ||| ch == '\u{205f}'
    ||| ch == '\u{3000}'
}

/// `text` without the white space at its front.
pub open spec fn trimmed_start(text: Seq<char>) -> Seq<char>
    decreases text.len(),
{
    if text.len() > 0 && is_white_space(text[0]) {
        trimmed_start(text.drop_first())
    } else {
        text
    }
}

/// `text` without the white space at its end.
pub open spec fn trimmed_end(text: Seq<char>) -> Seq<char>
    decreases text.len(),
{
    if text.len() > 0 && is_white_space(text.last()) {
        trimmed_end(text.drop_last())
    } else {
        text
    }
}

/// `text` without the white space at its front and end.
pub open spec fn trimmed(text: Seq<char>) -> Seq<char> {
    trimmed_end(trimmed_start(text))
}

/// Whether `text` holds `pattern` as a contiguous part, at `at`.
pub open spec fn occurs_at(pattern: Seq<char>, text: Seq<char>, at: int) -> bool {
    0 <= at <= text.len() - pattern.len() && text.subrange(at, at + pattern.len()) == pattern
}

/// Whether `text` holds `pattern` as a contiguous part.
pub open spec fn occurs_in(pattern: Seq<char>, text: Seq<char>) -> bool {
    exists|at: int| occurs_at(pattern, text, at)
}

/// An ASCII capital in lower case; any other character as it is.
pub open spec fn lower_char(ch: char) -> char {
    if 'A' <= ch <= 'Z' {
        (ch as u32 + 32) as char
    } else {
        ch
    }
}

/// `text` with its ASCII capitals in lower case.
pub open spec fn lower(text: Seq<char>) -> Seq<char> {
    text.map_values(|ch: char| lower_char(ch))
}

/// The number of characters in front of the first line feed.
pub open spec fn line_len(text: Seq<char>) -> nat
    decreases text.len(),
{
    if text.len() == 0 || text[0] == '\n' {
        0
    } else {
        1 + line_len(text.drop_first())
    }
}

/// A line without the carriage return that belongs to its line ending.
pub open spec fn without_return(line: Seq<char>) -> Seq<char> {
    if line.len() > 0 && line.last() == '\r' {
        line.drop_last()
    } else {
        line
    }
}

/// The lines of `text`. A line ends with a line feed, or a carriage return and a line feed,
/// which are no part of it; the last line may go without.
pub open spec fn lines_of(text: Seq<char>) -> Seq<Seq<char>>
    decreases text.len(),
{
    let n = line_len(text);
    if text.len() == 0 {
        seq![]
    } else if n >= text.len() {
        seq![text]
    } else {
        seq![without_return(text.take(n as int))] + lines_of(text.skip(n as int + 1))
    }
}

/// `parts` with a line feed between one and the next.
pub open spec fn joined(parts: Seq<Seq<char>>) -> Seq<char>
    decreases parts.len(),
{
    if parts.len() == 0 {
        seq![]
    } else if parts.len() == 1 {
        parts[0]
    } else {
        joined(parts.drop_last()).push('\n') + parts.last()
    }
}

/// The characters of `text`.
pub fn chars_of(text: &str) -> (chars: Vec<char>)
    ensures
        chars@ == text@,
{
    let mut chars: Vec<char> = Vec::new();
    for ch in iter: text.chars()
        invariant
            iter.seq() == text@,
            chars@ == text@.take(iter.index()),
    {
        chars.push(ch);
        assert(chars@ =~= text@.take(iter.index() + 1));
    }
    chars
}

/// The string of the characters from `from` up to `to`.
pub fn string_of(chars: &Vec<char>, from: usize, to: usize) -> (text: String)
    requires
        from <= to <= chars.len(),
    ensures
        text@ == chars@.subrange(from as int, to as int),
{
    let mut text = String::new();
    for i in from..to
        invariant
            from <= to <= chars.len(),
            text@ == chars@.subrange(from as int, i as int),
    {
        text.push(chars[i]);
        assert(text@ =~= chars@.subrange(from as int, i + 1));
    }
    text
}

/// Whether `ch` is white space.
pub fn is_whitespace(ch: char) -> (white: bool)
    ensures
        white == is_white_space(ch),
{
    ('\u{9}' <= ch && ch <= '\u{d}') || ch == ' ' || ch == '\u{85}' || ch == '\u{a0}' || ch
        == '\u{1680}' || ('\u{2000}' <= ch && ch <= '\u{200a}') || ch == '\u{2028}' || ch
        == '\u{2029}' || ch == '\u{202f}' || ch == '\u{205f}' || ch == '\u{3000}'
}

/// The number of characters of `chars` up to the white space at the end.
fn end_of_text(chars: &Vec<char>, from: usize) -> (to: usize)
    requires
        from <= chars.len(),
    ensures
        from <= to <= chars.len(),
        chars@.subrange(from as int, to as int) == trimmed_end(chars@.skip(from as int)),
{
    let mut to = chars.len();
    assert(chars@.subrange(from as int, to as int) =~= chars@.skip(from as int));
    while to > from && is_whitespace(chars[to - 1])
        invariant
            from <= to <= chars.len(),
            trimmed_end(chars@.subrange(from as int, to as int)) == trimmed_end(
                chars@.skip(from as int),
            ),
        decreases to,
    {
        assert(chars@.subrange(from as int, to as int).drop_last() =~= chars@.subrange(
            from as int,
            to - 1,
        ));
        to = to - 1;
    }
    to
}

/// `text` without the white space at its end.
pub fn trim_end(text: &str) -> (result: String)
    ensures
        result@ == trimmed_end(text@),
{
    let chars = chars_of(text);
    let to = end_of_text(&chars, 0);
    assert(chars@.skip(0) =~= chars@);
    string_of(&chars, 0, to)
}

/// `text` without the white space at its front and end.
pub fn trim(text: &str) -> (result: String)
    ensures
        result@ == trimmed(text@),
{
    let chars = chars_of(text);
    let mut from: usize = 0;
    assert(chars@.skip(0) =~= chars@);
    while from < chars.len() && is_whitespace(chars[from])
        invariant
            from <= chars.len(),
            trimmed_start(chars@.skip(from as int)) == trimmed_start(chars@),
        decreases chars.len() - from,
    {
        assert(chars@.skip(from as int).drop_first() =~= chars@.skip(from + 1));
        from = from + 1;
    }
    let to = end_of_text(&chars, from);
    string_of(&chars, from, to)
}

/// Whether `pattern` stands in `chars` at `at`.
fn stands_at(pattern: &Vec<char>, chars: &Vec<char>, at: usize) -> (found: bool)
    requires
        at + pattern.len() <= chars.len(),
    ensures
        found == occurs_at(pattern@, chars@, at as int),
{
    for i in 0..pattern.len()
        invariant
            at + pattern.len() <= chars.len(),
            forall|j: int| 0 <= j < i ==> chars@[at + j] == pattern@[j],
    {
        if chars[at + i] != pattern[i] {
            assert(chars@.subrange(at as int, at + pattern@.len())[i as int] != pattern@[i as int]);
            return false;
        }
    }
    assert(chars@.subrange(at as int, at + pattern@.len()) =~= pattern@);
    true
}

/// Whether `text` begins with `prefix`.
pub fn starts_with(text: &str, prefix: &str) -> (found: bool)
    ensures
        found == prefix@.is_prefix_of(text@),
{
    let chars = chars_of(text);
    let pattern = chars_of(prefix);
    pattern.len() <= chars.len() && stands_at(&pattern, &chars, 0)
}

/// Whether `text` holds `pattern`.
pub fn contains(text: &str, pattern: &str) -> (found: bool)
    ensures
        found == occurs_in(pattern@, text@),
{
    let chars = chars_of(text);
    let part = chars_of(pattern);
    if part.len() > chars.len() {
        return false;
    }
    let last = chars.len() - part.len();
    for at in 0..last
        invariant
            chars@ == text@,
            part@ == pattern@,
            last == chars.len() - part.len(),
            forall|i: int| 0 <= i < at ==> !occurs_at(pattern@, text@, i),
    {
        if stands_at(&part, &chars, at) {
            return true;
        }
    }
    stands_at(&part, &chars, last)
}

/// Whether two strings hold the same text.
pub fn same_text(a: &str, b: &str) -> (same: bool)
    ensures
        same == (a@ == b@),
{
    a.to_owned() == b.to_owned()
}

/// `text` with its ASCII capitals in lower case.
pub fn to_ascii_lowercase(text: &str) -> (result: String)
    ensures
        result@ == lower(text@),
{
    let mut result = String::new();
    for ch in iter: text.chars()
        invariant
            iter.seq() == text@,
            result@ == lower(text@.take(iter.index())),
    {
        if 'A' <= ch && ch <= 'Z' {
            result.push((ch as u8 + 32) as char);
        } else {
            result.push(ch);
        }
        assert(result@ =~= lower(text@.take(iter.index() + 1)));
    }
    assert(text@.take(text@.len() as int) =~= text@);
    result
}

/// A line feed that no other precedes ends the first line.
proof fn lemma_line_len(text: Seq<char>, n: nat)
    requires
        n <= text.len(),
        forall|i: int| 0 <= i < n ==> text[i] != '\n',
        n < text.len() ==> text[n as int] == '\n',
    ensures
        line_len(text) == n,
    decreases n,
{
    if n > 0 {
        lemma_line_len(text.drop_first(), (n - 1) as nat);
    }
}

/// The lines of `text`.
pub fn lines(text: &str) -> (result: Vec<String>)
    ensures
        texts(result@) == lines_of(text@),
{
    let chars = chars_of(text);
    let mut result: Vec<String> = Vec::new();
    let mut from: usize = 0;
    assert(texts(result@) + lines_of(chars@.skip(0)) =~= lines_of(chars@)) by {
        assert(chars@.skip(0) =~= chars@);
    }
    for i in 0..chars.len()
        invariant
            from <= i <= chars.len(),
            forall|j: int| from <= j < i ==> chars@[j] != '\n',
            texts(result@) + lines_of(chars@.skip(from as int)) == lines_of(chars@),
    {
        if chars[i] == '\n' {
            let ghost rest = chars@.skip(from as int);
            let to = if i > from && chars[i - 1] == '\r' {
                i - 1
            } else {
                i
            };
            let line = string_of(&chars, from, to);
            proof {
                lemma_line_len(rest, (i - from) as nat);
                assert(line@ =~= without_return(rest.take(i - from)));
                assert(rest.skip(i - from + 1) =~= chars@.skip(i + 1));
                lemma_texts_push(result@, line);
                assert(texts(result@) + (seq![line@] + lines_of(chars@.skip(i + 1))) =~= texts(
                    result@,
                ).push(line@) + lines_of(chars@.skip(i + 1)));
            }
            result.push(line);
            from = i + 1;
        }
    }
    if from < chars.len() {
        let line = string_of(&chars, from, chars.len());
        proof {
            let rest = chars@.skip(from as int);
            lemma_line_len(rest, rest.len());
            assert(line@ =~= rest);
            lemma_texts_push(result@, line);
        }
        result.push(line);
    }
    result
}

/// `parts` with a line feed between one and the next.
pub fn join_lines(parts: &Vec<String>) -> (result: String)
    ensures
        result@ == joined(texts(parts@)),
{
    let mut result = String::new();
    for i in 0..parts.len()
        invariant
            result@ == joined(texts(parts@).take(i as int)),
    {
        if i > 0 {
            result.push('\n');
        }
        result.append(parts[i].as_str());
        assert(texts(parts@).take(i + 1).drop_last() =~= texts(parts@).take(i as int));
    }
    assert(texts(parts@).take(parts.len() as int) =~= texts(parts@));
    result
}

/// Trimming at the front leaves nothing, or a text that begins with no white space.
proof fn lemma_trimmed_start(text: Seq<char>)
    ensures
        trimmed_start(text).len() > 0 ==> !is_white_space(trimmed_start(text)[0]),
    decreases text.len(),
{
    if text.len() > 0 && is_white_space(text[0]) {
        lemma_trimmed_start(text.drop_first());
    }
}

/// Trimming at the end leaves nothing, or a text that begins as before and ends with no white
/// space.
proof fn lemma_trimmed_end(text: Seq<char>)
    ensures
        trimmed_end(text).is_prefix_of(text),
        trimmed_end(text).len() > 0 ==> !is_white_space(trimmed_end(text).last()),
    decreases text.len(),
{
    if text.len() > 0 && is_white_space(text.last()) {
        lemma_trimmed_end(text.drop_last());
        let rest = trimmed_end(text.drop_last());
        assert(text.drop_last().subrange(0, rest.len() as int) =~= text.subrange(
            0,
            rest.len() as int,
        ));
    } else {
        assert(text.subrange(0, text.len() as int) =~= text);
    }
}

/// Trimming twice is trimming once.
pub proof fn trimmed_twice(text: Seq<char>)
    ensures
        trimmed(trimmed(text)) == trimmed(text),
{
    let front = trimmed_start(text);
    lemma_trimmed_start(text);
    lemma_trimmed_end(front);
    if trimmed(text).len() > 0 {
        assert(trimmed(text)[0] == front[0]);
    }
}

/// Trimming leaves something of a text that is not all white space.
pub proof fn trimmed_is_not_empty(text: Seq<char>, i: int)
    requires
        0 <= i < text.len(),
        !is_white_space(text[i]),
    ensures
        trimmed(text).len() > 0,
{
    lemma_trimmed_start_keeps(text, i);
    lemma_trimmed_start(text);
    lemma_trimmed_end_keeps(trimmed_start(text));
}

proof fn lemma_trimmed_start_keeps(text: Seq<char>, i: int)
    requires
        0 <= i < text.len(),
        !is_white_space(text[i]),
    ensures
        trimmed_start(text).len() > 0,
    decreases text.len(),
{
    if is_white_space(text[0]) {
        lemma_trimmed_start_keeps(text.drop_first(), i - 1);
    }
}

proof fn lemma_trimmed_end_keeps(text: Seq<char>)
    requires
        text.len() > 0,
        !is_white_space(text[0]),
    ensures
        trimmed_end(text).len() > 0,
    decreases text.len(),
{
    if is_white_space(text.last()) {
        lemma_trimmed_end_keeps(text.drop_last());
    }
}

/// Capitals do not matter to trimming.
pub proof fn trimmed_lower(text: Seq<char>)
    ensures
        trimmed(lower(text)) == lower(trimmed(text)),
{
    lemma_trimmed_start_lower(text);
    lemma_trimmed_end_lower(trimmed_start(text));
}

proof fn lemma_trimmed_start_lower(text: Seq<char>)
    ensures
        trimmed_start(lower(text)) == lower(trimmed_start(text)),
    decreases text.len(),
{
    if text.len() > 0 && is_white_space(text[0]) {
        lemma_trimmed_start_lower(text.drop_first());
        assert(lower(text).drop_first() =~= lower(text.drop_first()));
    }
}

proof fn lemma_trimmed_end_lower(text: Seq<char>)
    ensures
        trimmed_end(lower(text)) == lower(trimmed_end(text)),
    decreases text.len(),
{
    if text.len() > 0 && is_white_space(text.last()) {
        lemma_trimmed_end_lower(text.drop_last());
        assert(lower(text).drop_last() =~= lower(text.drop_last()));
    }
}

/// Lower case twice is lower case once.
pub proof fn lower_twice(text: Seq<char>)
    ensures
        lower(lower(text)) == lower(text),
{
    assert(lower(lower(text)) =~= lower(text));
}

/// Joining can be read from the front as well as from the end.
proof fn lemma_joined_front(parts: Seq<Seq<char>>)
    requires
        parts.len() >= 2,
    ensures
        joined(parts) == parts[0].push('\n') + joined(parts.drop_first()),
    decreases parts.len(),
{
    let rest = parts.drop_first();
    if parts.len() == 2 {
        assert(joined(parts.drop_last()) == parts[0]);
        assert(joined(rest) == parts[1]);
    } else {
        lemma_joined_front(parts.drop_last());
        assert(parts.drop_last().drop_first() =~= rest.drop_last());
        assert(joined(parts) =~= parts[0].push('\n') + joined(rest));
    }
}

/// Lines that are joined come back as they were, if none holds a line feed or ends with a
/// carriage return, and the last is not empty.
pub proof fn lines_of_joined(parts: Seq<Seq<char>>)
    requires
        forall|i: int, j: int|
            0 <= i < parts.len() && 0 <= j < parts[i].len() ==> #[trigger] parts[i][j] != '\n',
        forall|i: int|
            0 <= i < parts.len() && #[trigger] parts[i].len() > 0 ==> parts[i].last() != '\r',
        parts.len() > 0 ==> parts.last().len() > 0,
    ensures
        lines_of(joined(parts)) == parts,
    decreases parts.len(),
{
    let text = joined(parts);
    if parts.len() == 1 {
        lemma_line_len(text, text.len());
        assert(seq![text] =~= parts);
    } else if parts.len() > 1 {
        let rest = parts.drop_first();
        let n = parts[0].len();
        assert forall|i: int, j: int|
            0 <= i < rest.len() && 0 <= j < rest[i].len() implies #[trigger] rest[i][j] != '\n' by {
            assert(parts[i + 1][j] != '\n');
        }
        assert forall|i: int| 0 <= i < rest.len() && #[trigger] rest[i].len() > 0 implies rest[i].last()
            != '\r' by {
            assert(parts[i + 1].len() > 0);
        }
        lines_of_joined(rest);
        lemma_joined_front(parts);
        assert forall|j: int| 0 <= j < n implies text[j] != '\n' by {
            assert(text[j] == parts[0][j]);
        }
        assert(text[n as int] == '\n');
        lemma_line_len(text, n);
        assert(text.take(n as int) =~= parts[0]);
        assert(text.skip(n as int + 1) =~= joined(rest));
        assert(seq![parts[0]] + rest =~= parts);
    } else {
        assert(parts =~= seq![]);
    }
}

/// White space is made of these code points and no others.
pub proof fn white_space_by_code_point(ch: char)
    ensures
        is_white_space(ch) <==> {
            let code = ch as u32;
            ||| 9 <= code <= 13
            ||| code == 32
            ||| code == 133
            ||| code == 160
            ||| code == 5760
            ||| 8192 <= code <= 8202
            ||| code == 8232
            ||| code == 8233
            ||| code == 8239
            ||| code == 8287
            ||| code == 12288
        },
{
}

/// Trimming at the end takes off white space and nothing else, and all of it.
pub proof fn trimmed_end_takes_off_white_space(text: Seq<char>)
    ensures
        trimmed_end(text).len() > 0 ==> !is_white_space(trimmed_end(text).last()),
        exists|back: Seq<char>|
            text == #[trigger] (trimmed_end(text) + back) && forall|i: int|
                0 <= i < back.len() ==> is_white_space(#[trigger] back[i]),
    decreases text.len(),
{
    if text.len() > 0 && is_white_space(text.last()) {
        trimmed_end_takes_off_white_space(text.drop_last());
        let rest = trimmed_end(text.drop_last());
        let back = choose|back: Seq<char>|
            text.drop_last() == #[trigger] (rest + back) && forall|i: int|
                0 <= i < back.len() ==> is_white_space(#[trigger] back[i]);
        assert(text =~= text.drop_last().push(text.last()));
        assert(text =~= rest + back.push(text.last()));
        assert(trimmed_end(text) + back.push(text.last()) == text);
    } else {
        assert(text =~= trimmed_end(text) + Seq::<char>::empty());
    }
}

/// Trimming at the front takes off white space and nothing else, and all of it.
pub proof fn trimmed_start_takes_off_white_space(text: Seq<char>)
    ensures
        trimmed_start(text).len() > 0 ==> !is_white_space(trimmed_start(text)[0]),
        exists|front: Seq<char>|
            text == #[trigger] (front + trimmed_start(text)) && forall|i: int|
                0 <= i < front.len() ==> is_white_space(#[trigger] front[i]),
    decreases text.len(),
{
    if text.len() > 0 && is_white_space(text[0]) {
        trimmed_start_takes_off_white_space(text.drop_first());
        let rest = trimmed_start(text.drop_first());
        let front = choose|front: Seq<char>|
            text.drop_first() == #[trigger] (front + rest) && forall|i: int|
                0 <= i < front.len() ==> is_white_space(#[trigger] front[i]);
        let longer = seq![text[0]] + front;
        assert(text =~= seq![text[0]] + text.drop_first());
        assert(text =~= longer + rest);
        assert(longer + trimmed_start(text) == text);
    } else {
        assert(text =~= Seq::<char>::empty() + trimmed_start(text));
    }
}

/// Trimming takes off white space at the front and at the end, nothing else, and all of it.
pub proof fn trimmed_takes_off_white_space(text: Seq<char>)
    ensures
        trimmed(text).len() > 0 ==> !is_white_space(trimmed(text)[0]) && !is_white_space(
            trimmed(text).last(),
        ),
        exists|front: Seq<char>, back: Seq<char>|
            text == #[trigger] (front + trimmed(text) + back) && (forall|i: int|
                0 <= i < front.len() ==> is_white_space(#[trigger] front[i])) && (forall|i: int|
                0 <= i < back.len() ==> is_white_space(#[trigger] back[i])),
{
    let middle = trimmed_start(text);
    trimmed_start_takes_off_white_space(text);
    trimmed_end_takes_off_white_space(middle);
    let front = choose|front: Seq<char>|
        text == #[trigger] (front + middle) && forall|i: int|
            0 <= i < front.len() ==> is_white_space(#[trigger] front[i]);
    let back = choose|back: Seq<char>|
        middle == #[trigger] (trimmed_end(middle) + back) && forall|i: int|
            0 <= i < back.len() ==> is_white_space(#[trigger] back[i]);
    assert(text =~= front + trimmed(text) + back);
    if trimmed(text).len() > 0 {
        assert(middle[0] == trimmed(text)[0]);
    }
}

/// A pattern is found in a text exactly where the text is the pattern with something in front
/// of it and something behind it.
pub proof fn occurrence_splits_text(pattern: Seq<char>, text: Seq<char>)
    ensures
        occurs_in(pattern, text) <==> exists|front: Seq<char>, back: Seq<char>|
            text == #[trigger] (front + pattern + back),
{
    if occurs_in(pattern, text) {
        let at = choose|at: int| occurs_at(pattern, text, at);
        assert(text =~= text.take(at) + pattern + text.skip(at + pattern.len()));
    }
    if exists|front: Seq<char>, back: Seq<char>| text == #[trigger] (front + pattern + back) {
        let (front, back) = choose|front: Seq<char>, back: Seq<char>|
            text == #[trigger] (front + pattern + back);
        assert(text.subrange(front.len() as int, front.len() as int + pattern.len()) =~= pattern);
        assert(occurs_at(pattern, text, front.len() as int));
    }
}

/// Lower case changes the letters from `A` to `Z`, and no other character.
pub proof fn lower_changes_ascii_capitals(text: Seq<char>, i: int)
    requires
        0 <= i < text.len(),
    ensures
        lower(text).len() == text.len(),
        65 <= text[i] as u32 <= 90 ==> lower(text)[i] as u32 == text[i] as u32 + 32,
        !(65 <= text[i] as u32 <= 90) ==> lower(text)[i] == text[i],
{
}

/// A text without line feeds is one line, unless it is empty.
pub proof fn text_without_line_feed_is_one_line(text: Seq<char>)
    requires
        forall|i: int| 0 <= i < text.len() ==> text[i] != '\n',
    ensures
        lines_of(text) == if text.len() == 0 {
            Seq::<Seq<char>>::empty()
        } else {
            seq![text]
        },
{
    lemma_line_len(text, text.len());
}

/// A line ends at its first line feed; what stands behind it is split by itself. A carriage
/// return in front of the line feed belongs to the line ending.
pub proof fn line_ends_at_line_feed(line: Seq<char>, rest: Seq<char>)
    requires
        forall|i: int| 0 <= i < line.len() ==> line[i] != '\n',
    ensures
        lines_of(line.push('\r').push('\n') + rest) == seq![line] + lines_of(rest),
        line.len() == 0 || line.last() != '\r' ==> lines_of(line.push('\n') + rest) == seq![line]
            + lines_of(rest),
{
    let with_return = line.push('\r').push('\n') + rest;
    assert(with_return[line.len() as int + 1] == '\n');
    lemma_line_len(with_return, line.len() + 1);
    assert(with_return.take(line.len() as int + 1) =~= line.push('\r'));
    assert(line.push('\r').drop_last() =~= line);
    assert(with_return.skip(line.len() as int + 2) =~= rest);

    let plain = line.push('\n') + rest;
    assert(plain[line.len() as int] == '\n');
    lemma_line_len(plain, line.len());
    assert(plain.take(line.len() as int) =~= line);
    assert(plain.skip(line.len() as int + 1) =~= rest);
}

/// Joining puts one line feed between neighbours, and none at either end.
pub proof fn joining_puts_line_feeds_between(parts: Seq<Seq<char>>, part: Seq<char>)
    ensures
        joined(Seq::empty()) == Seq::<char>::empty(),
        joined(seq![part]) == part,
        parts.len() > 0 ==> joined(parts.push(part)) == joined(parts) + seq!['\n'] + part,
{
    if parts.len() > 0 {
        assert(parts.push(part).drop_last() =~= parts);
        assert(joined(parts.push(part)) =~= joined(parts) + seq!['\n'] + part);
    }
}

/// The texts of strings are theirs, one by one.
pub proof fn texts_are_those_of_the_strings(strings: Seq<String>, string: String, i: int)
    requires
        0 <= i < strings.len(),
    ensures
        texts(strings).len() == strings.len(),
        texts(strings)[i] == strings[i]@,
        optional_text(Some(string)) == Some(string@),
        optional_text(None) is None,
{
}

} // verus!
