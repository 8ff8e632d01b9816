//! Text handling: splitting, trimming, joining, number parsing and formatting.

use vstd::prelude::*;
use vstd::slice::slice_subrange;
use vstd::utf8::*;

verus! {

/// `String::push` appends one character at the end of the string.
pub assume_specification[ String::push ](text: &mut String, c: char)
    ensures
        final(text)@ == old(text)@.push(c),
;

/// What the error of `std::str::from_utf8` says of bytes that are not valid UTF-8.
pub uninterp spec fn utf8_complaint(bytes: Seq<u8>) -> Seq<char>;

/// `std::str::from_utf8` gives the text of bytes that are valid UTF-8, and an
/// error, given here as its message, for others.
#[verifier::external_body]
pub(crate) fn decode(bytes: &[u8]) -> (text: Result<String, String>)
    ensures
        match text {
            Ok(text) => valid_utf8(bytes@) && text@ == decode_utf8(bytes@),
            Err(complaint) => !valid_utf8(bytes@) && complaint@ == utf8_complaint(bytes@),
        },
{
    match std::str::from_utf8(bytes) {
        Ok(text) => Ok(text.to_owned()),
        Err(error) => Err(error.to_string()),
    }
}

/// What `String::from_utf8_lossy` makes of bytes: the text, with a replacement
/// character for what is not valid UTF-8.
pub uninterp spec fn lossy(bytes: Seq<u8>) -> Seq<char>;

/// `String::from_utf8_lossy` gives bytes that are valid UTF-8 as they are.
#[verifier::external_body]
pub(crate) fn decode_lossy(bytes: &[u8]) -> (text: String)
    ensures
        text@ == lossy(bytes@),
        valid_utf8(bytes@) ==> text@ == decode_utf8(bytes@),
{
    String::from_utf8_lossy(bytes).into_owned()
}

/// Copies a string.
pub fn copy_text(text: &str) -> (copy: String)
    ensures
        copy@ == text@,
{
    let mut copy = String::new();
    append(&mut copy, text);
    assert(copy@ =~= text@);
    copy
}

/// Puts a text behind another.
pub fn plus(text: String, more: &str) -> (result: String)
    ensures
        result@ == text@ + more@,
{
    let mut result = text;
    append(&mut result, more);
    result
}

/// Whether a text is empty.
pub fn empty_text(text: &str) -> (result: bool)
    ensures
        result == (text@.len() == 0),
{
    let chars: Vec<char> = chars_of(text);
    chars.len() == 0
}

/// A text without the zeros at its end.
pub open spec fn trim_zeros(text: Seq<char>) -> Seq<char>
    decreases text.len(),
{
    if text.len() > 0 && text.last() == '\0' {
        trim_zeros(text.drop_last())
    } else {
        text
    }
}

/// Removes the zeros at the end of a text.
pub fn without_zeros(text: &str) -> (result: String)
    ensures
        result@ == trim_zeros(text@),
{
    let chars: Vec<char> = chars_of(text);
    let mut end: usize = chars.len();
    assert(chars@.take(end as int) =~= chars@);
    while end > 0 && chars[end - 1] == '\0'
        invariant
            end <= chars@.len(),
            trim_zeros(chars@.take(end as int)) == trim_zeros(chars@),
        decreases end,
    {
        assert(chars@.take(end as int).drop_last() =~= chars@.take(end - 1));
        end = end - 1;
    }
    string_of(slice_subrange(chars.as_slice(), 0, end))
}

/// The port of an endpoint such as `tcp:5555`.
pub open spec fn tcp_port(endpoint: Seq<char>) -> Option<nat> {
    match after_prefix(endpoint, "tcp:"@) {
        Some(port) => unsigned_value(port, 10, 65535),
        None => None,
    }
}

/// Reads the port of an endpoint.
pub fn parse_tcp_port(endpoint: &str) -> (port: Option<u16>)
    ensures
        match port {
            Some(port) => tcp_port(endpoint@) == Some(port as nat),
            None => tcp_port(endpoint@) is None,
        },
{
    match strip_prefix(endpoint, "tcp:") {
        Some(port) => parse_u16(&port),
        None => None,
    }
}

/// The contents of a list of strings.
pub open spec fn texts(list: Seq<String>) -> Seq<Seq<char>> {
    list.map_values(|item: String| item@)
}

/// The contents of an optional string.
pub open spec fn optional_text(value: Option<String>) -> Option<Seq<char>> {
    match value {
        Some(text) => Some(text@),
        None => None,
    }
}

/// Collects the characters of a string.
pub fn chars_of(text: &str) -> (chars: Vec<char>)
    ensures
        chars@ == text@,
{
    let mut chars: Vec<char> = Vec::new();
    for c in iter: text.chars()
        invariant
            iter.seq() == text@,
            chars@ == text@.take(iter.index() as int),
    {
        chars.push(c);
    }
    chars
}

/// Builds a string out of characters.
pub fn string_of(chars: &[char]) -> (text: String)
    ensures
        text@ == chars@,
{
    let mut text = String::new();
    let mut i: usize = 0;
    while i < chars.len()
        invariant
            i <= chars@.len(),
            text@ == chars@.take(i as int),
        decreases chars@.len() - i,
    {
        text.push(chars[i]);
        i = i + 1;
    }
    text
}

/// Compares two strings character by character.
pub fn same_text(left: &str, right: &str) -> (same: bool)
    ensures
        same == (left@ == right@),
{
    let a = left.as_bytes();
    let b = right.as_bytes();
    let same = same_bytes(a, b);
    proof {
        encode_utf8_decode_utf8(left@);
        encode_utf8_decode_utf8(right@);
    }
    same
}

/// Compares two byte strings.
pub fn same_bytes(left: &[u8], right: &[u8]) -> (same: bool)
    ensures
        same == (left@ == right@),
{
    if left.len() != right.len() {
        return false;
    }
    let mut i: usize = 0;
    while i < left.len()
        invariant
            i <= left@.len(),
            left@.len() == right@.len(),
            left@.take(i as int) == right@.take(i as int),
        decreases left@.len() - i,
    {
        if left[i] != right[i] {
            return false;
        }
        assert(left@.take(i + 1) =~= left@.take(i as int).push(left@[i as int]));
        assert(right@.take(i + 1) =~= right@.take(i as int).push(right@[i as int]));
        i = i + 1;
    }
    assert(left@.take(i as int) =~= left@);
    assert(right@.take(i as int) =~= right@);
    true
}

/// Number of leading characters that differ from `c`.
pub open spec fn span(text: Seq<char>, c: char) -> nat
    decreases text.len(),
{
    if text.len() == 0 || text[0] == c {
        0
    } else {
        1 + span(text.drop_first(), c)
    }
}

/// `span` stops at the first `c`, or at the end of the text.
pub proof fn lemma_span(text: Seq<char>, c: char)
    ensures
        span(text, c) <= text.len(),
        span(text, c) < text.len() ==> text[span(text, c) as int] == c,
        forall|i: int| 0 <= i < span(text, c) ==> text[i] != c,
    decreases text.len(),
{
    if text.len() != 0 && text[0] != c {
        let rest = text.drop_first();
        lemma_span(rest, c);
        assert forall|i: int| 0 <= i < span(text, c) implies text[i] != c by {
            if i > 0 {
                assert(rest[i - 1] == text[i]);
            }
        }
    }
}

/// `span` is the only position with that property.
pub proof fn lemma_span_is(text: Seq<char>, c: char, n: int)
    requires
        0 <= n <= text.len(),
        n < text.len() ==> text[n] == c,
        forall|i: int| 0 <= i < n ==> text[i] != c,
    ensures
        span(text, c) == n,
{
    lemma_span(text, c);
    let m = span(text, c) as int;
    if m < n {
        assert(text[m] == c);
    }
}

/// Finds the first `c`, or the end of the text.
pub fn find_char(text: &[char], c: char) -> (position: usize)
    ensures
        position == span(text@, c),
        position <= text@.len(),
{
    let mut i: usize = 0;
    while i < text.len() && text[i] != c
        invariant
            i <= text@.len(),
            forall|j: int| 0 <= j < i ==> text@[j] != c,
        decreases text@.len() - i,
    {
        i = i + 1;
    }
    proof {
        lemma_span_is(text@, c, i as int);
    }
    i
}

/// The fields of a text between occurrences of a separator.
pub open spec fn split(text: Seq<char>, separator: char) -> Seq<Seq<char>>
    decreases text.len(),
{
    let n = span(text, separator) as int;
    if n >= text.len() {
        seq![text]
    } else {
        seq![text.take(n)] + split(text.skip(n + 1), separator)
    }
}

/// Splits a text at every occurrence of a separator.
pub fn split_at_char(text: &[char], separator: char) -> (fields: Vec<String>)
    ensures
        texts(fields@) == split(text@, separator),
{
    let mut fields: Vec<String> = Vec::new();
    let mut rest = text;
    assert(texts(fields@) + split(rest@, separator) =~= split(text@, separator));
    loop
        invariant_except_break
            texts(fields@) + split(rest@, separator) == split(text@, separator),
        ensures
            texts(fields@) == split(text@, separator),
        decreases rest@.len(),
    {
        let ghost before = fields@;
        let n = find_char(rest, separator);
        if n >= rest.len() {
            fields.push(string_of(rest));
            assert(texts(fields@) =~= texts(before).push(rest@));
            assert(texts(before) + seq![rest@] =~= texts(before).push(rest@));
            break;
        }
        let field = string_of(slice_subrange(rest, 0, n));
        assert(field@ =~= rest@.take(n as int));
        fields.push(field);
        let tail = slice_subrange(rest, n + 1, rest.len());
        proof {
            assert(tail@ =~= rest@.skip(n + 1));
            assert(texts(fields@) =~= texts(before).push(rest@.take(n as int)));
            assert(texts(fields@) + split(tail@, separator) =~= texts(before) + (seq![
                rest@.take(n as int),
            ] + split(tail@, separator)));
        }
        rest = tail;
    }
    fields
}

/// A line without the carriage return of its line ending.
pub open spec fn without_return(line: Seq<char>) -> Seq<char> {
    if line.len() > 0 && line.last() == '\r' {
        line.drop_last()
    } else {
        line
    }
}

/// The lines of a text; the last line ending is optional.
pub open spec fn lines(text: Seq<char>) -> Seq<Seq<char>>
    decreases text.len(),
{
    let n = span(text, '\n') as int;
    if text.len() == 0 {
        seq![]
    } else if n >= text.len() {
        seq![text]
    } else {
        seq![without_return(text.take(n))] + lines(text.skip(n + 1))
    }
}

/// Splits a text into lines.
pub fn lines_of(text: &[char]) -> (list: Vec<String>)
    ensures
        texts(list@) == lines(text@),
{
    let mut list: Vec<String> = Vec::new();
    let mut rest = text;
    assert(texts(list@) + lines(rest@) =~= lines(text@));
    while rest.len() > 0
        invariant
            texts(list@) + lines(rest@) == lines(text@),
        decreases rest@.len(),
    {
        let ghost before = list@;
        let n = find_char(rest, '\n');
        if n >= rest.len() {
            list.push(string_of(rest));
            let tail = slice_subrange(rest, n, n);
            assert(texts(list@) =~= texts(before).push(rest@));
            assert(lines(tail@) =~= seq![]);
            assert(texts(list@) + lines(tail@) =~= texts(before) + seq![rest@]);
            rest = tail;
        } else {
            let end = if n > 0 && rest[n - 1] == '\r' {
                n - 1
            } else {
                n
            };
            let line = string_of(slice_subrange(rest, 0, end));
            assert(line@ =~= without_return(rest@.take(n as int)));
            list.push(line);
            let tail = slice_subrange(rest, n + 1, rest.len());
            proof {
                assert(tail@ =~= rest@.skip(n + 1));
                assert(texts(list@) =~= texts(before).push(line@));
                assert(texts(list@) + lines(tail@) =~= texts(before) + (seq![line@] + lines(
                    tail@,
                )));
            }
            rest = tail;
        }
    }
    assert(texts(list@) + lines(rest@) =~= texts(list@));
    list
}

/// Characters with the Unicode `White_Space` property.
pub open spec fn is_space(c: char) -> bool {
    ||| '\u{9}' <= c <= '\u{d}'
    ||| c == ' '
    ||| c == '\u{85}'
    ||| c == '\u{a0}'
    ||| c == '\u{1680}'
    ||| '\u{2000}' <= c <= '\u{200a}'
    ||| c == '\u{2028}'
    ||| c == '\u{2029}'
    ||| c == '\u{202f}'
    ||| c == '\u{205f}'
    ||| c == '\u{3000}'
}

/// Whether a character is white space.
pub fn space(c: char) -> (result: bool)
    ensures
        result == is_space(c),
{
    (c >= '\u{9}' && c <= '\u{d}') || c == ' ' || c == '\u{85}' || c == '\u{a0}' || c
        == '\u{1680}' || (c >= '\u{2000}' && c <= '\u{200a}') || c == '\u{2028}' || c
        == '\u{2029}' || c == '\u{202f}' || c == '\u{205f}' || c == '\u{3000}'
}

/// A text without its leading white space.
pub open spec fn trim_start(text: Seq<char>) -> Seq<char>
    decreases text.len(),
{
    if text.len() > 0 && is_space(text[0]) {
        trim_start(text.drop_first())
    } else {
        text
    }
}

/// A text without its trailing white space.
pub open spec fn trim_end(text: Seq<char>) -> Seq<char>
    decreases text.len(),
{
    if text.len() > 0 && is_space(text.last()) {
        trim_end(text.drop_last())
    } else {
        text
    }
}

/// A text without its leading and trailing white space.
pub open spec fn trim(text: Seq<char>) -> Seq<char> {
    trim_end(trim_start(text))
}

/// Removes the leading white space.
pub fn trimmed_start(text: &[char]) -> (result: &[char])
    ensures
        result@ == trim_start(text@),
{
    let mut rest = text;
    while rest.len() > 0 && space(rest[0])
        invariant
            trim_start(rest@) == trim_start(text@),
        decreases rest@.len(),
    {
        let tail = slice_subrange(rest, 1, rest.len());
        assert(tail@ =~= rest@.drop_first());
        rest = tail;
    }
    rest
}

/// Removes the trailing white space.
pub fn trimmed_end(text: &[char]) -> (result: &[char])
    ensures
        result@ == trim_end(text@),
{
    let mut rest = text;
    while rest.len() > 0 && space(rest[rest.len() - 1])
        invariant
            trim_end(rest@) == trim_end(text@),
        decreases rest@.len(),
    {
        let head = slice_subrange(rest, 0, rest.len() - 1);
        assert(head@ =~= rest@.drop_last());
        rest = head;
    }
    rest
}

/// Removes the white space on both sides.
pub fn trimmed(text: &[char]) -> (result: &[char])
    ensures
        result@ == trim(text@),
{
    trimmed_end(trimmed_start(text))
}

/// Number of leading characters that are not white space.
pub open spec fn word_span(text: Seq<char>) -> nat
    decreases text.len(),
{
    if text.len() == 0 || is_space(text[0]) {
        0
    } else {
        1 + word_span(text.drop_first())
    }
}

/// A word ends inside the text, and is not empty unless white space comes first.
pub proof fn lemma_word_span(text: Seq<char>)
    ensures
        word_span(text) <= text.len(),
    decreases text.len(),
{
    if text.len() != 0 && !is_space(text[0]) {
        lemma_word_span(text.drop_first());
    }
}

/// Trimming never adds characters.
pub proof fn lemma_trim_start_len(text: Seq<char>)
    ensures
        trim_start(text).len() <= text.len(),
        trim_start(text).len() > 0 ==> !is_space(trim_start(text)[0]),
    decreases text.len(),
{
    if text.len() > 0 && is_space(text[0]) {
        lemma_trim_start_len(text.drop_first());
    }
}

/// The words of a text between runs of white space.
pub open spec fn words(text: Seq<char>) -> Seq<Seq<char>>
    decreases text.len(),
{
    let start = trim_start(text);
    let n = word_span(start) as int;
    proof {
        lemma_trim_start_len(text);
        lemma_word_span(start);
    }
    if start.len() == 0 {
        seq![]
    } else {
        seq![start.take(n)] + words(start.skip(n))
    }
}

/// Splits a text into words.
pub fn words_of(text: &[char]) -> (list: Vec<String>)
    ensures
        texts(list@) == words(text@),
{
    let mut list: Vec<String> = Vec::new();
    let mut rest = trimmed_start(text);
    let ghost mut whole = text@;
    assert(texts(list@) + words(text@) =~= words(text@));
    while rest.len() > 0
        invariant
            rest@ == trim_start(whole),
            texts(list@) + words(whole) == words(text@),
        decreases rest@.len(),
    {
        let ghost before = list@;
        let ghost start = rest@;
        proof {
            lemma_trim_start_len(whole);
            lemma_word_span(start);
        }
        let mut n: usize = 0;
        assert(start.skip(0) =~= start);
        while n < rest.len() && !space(rest[n])
            invariant
                n <= rest@.len(),
                rest@ == start,
                word_span(start) == n + word_span(start.skip(n as int)),
            decreases rest@.len() - n,
        {
            assert(start.skip(n as int).drop_first() =~= start.skip(n + 1));
            n = n + 1;
        }
        assert(n == word_span(start));
        assert(n > 0);
        let word = string_of(slice_subrange(rest, 0, n));
        assert(word@ =~= start.take(n as int));
        list.push(word);
        let tail = slice_subrange(rest, n, rest.len());
        assert(tail@ =~= start.skip(n as int));
        rest = trimmed_start(tail);
        proof {
            lemma_trim_start_len(tail@);
            assert(texts(list@) =~= texts(before).push(word@));
            assert(texts(list@) + words(tail@) =~= texts(before) + (seq![word@] + words(tail@)));
            whole = tail@;
        }
    }
    assert(texts(list@) + words(whole) =~= texts(list@));
    list
}

/// The parts of a list with a separator between each two.
pub open spec fn join(parts: Seq<Seq<char>>, separator: Seq<char>) -> Seq<char>
    decreases parts.len(),
{
    if parts.len() == 0 {
        seq![]
    } else if parts.len() == 1 {
        parts[0]
    } else {
        join(parts.drop_last(), separator) + separator + parts.last()
    }
}

/// Joins a range of a list with a separator.
pub fn join_range(list: &[String], from: usize, to: usize, separator: char) -> (text: String)
    requires
        from <= to <= list@.len(),
    ensures
        text@ == join(texts(list@).subrange(from as int, to as int), seq![separator]),
{
    let ghost all = texts(list@).subrange(from as int, to as int);
    let mut text = String::new();
    let mut i: usize = from;
    assert(all.take(0) =~= seq![]);
    while i < to
        invariant
            from <= i <= to <= list@.len(),
            all == texts(list@).subrange(from as int, to as int),
            text@ == join(all.take(i - from), seq![separator]),
        decreases to - i,
    {
        let ghost done = i - from;
        if i > from {
            text.push(separator);
        }
        append(&mut text, list[i].as_str());
        proof {
            assert(all.take(done + 1).drop_last() =~= all.take(done));
            assert(all.take(done + 1).last() == list@[i as int]@);
            assert(join(all.take(done), seq![separator]) + seq![separator] =~= join(
                all.take(done),
                seq![separator],
            ).push(separator));
            if done == 0 {
                assert(text@ =~= list@[i as int]@);
            }
        }
        i = i + 1;
    }
    assert(all.take(to - from) =~= all);
    text
}

/// Joins the items of a list from `start` on with spaces.
pub fn join_from(list: &[String], start: usize) -> (text: String)
    requires
        start <= list@.len(),
    ensures
        text@ == join(texts(list@).skip(start as int), seq![' ']),
{
    assert(texts(list@).subrange(start as int, list@.len() as int) =~= texts(list@).skip(
        start as int,
    ));
    join_range(list, start, list.len(), ' ')
}

/// A text with a separator in it splits there.
pub proof fn lemma_split_join(left: Seq<char>, separator: char, right: Seq<char>)
    ensures
        split(left + seq![separator] + right, separator) == split(left, separator) + split(
            right,
            separator,
        ),
    decreases left.len(),
{
    let whole = left + seq![separator] + right;
    lemma_span(left, separator);
    let n = span(left, separator) as int;
    if n >= left.len() {
        lemma_span_is(whole, separator, n);
        assert(whole.take(n) =~= left);
        assert(whole.skip(n + 1) =~= right);
    } else {
        lemma_span_is(whole, separator, n);
        assert(whole.take(n) =~= left.take(n));
        assert(whole.skip(n + 1) =~= left.skip(n + 1) + seq![separator] + right);
        lemma_split_join(left.skip(n + 1), separator, right);
        assert(split(whole, separator) =~= split(left, separator) + split(right, separator));
    }
}

/// The fields of a text do not hold the separator, and there is at least one.
pub proof fn lemma_split_fields(text: Seq<char>, separator: char)
    ensures
        split(text, separator).len() >= 1,
        forall|i: int|
            0 <= i < split(text, separator).len() ==> !(#[trigger] split(
                text,
                separator,
            )[i]).contains(separator),
    decreases text.len(),
{
    lemma_span(text, separator);
    let n = span(text, separator) as int;
    if n < text.len() {
        lemma_split_fields(text.skip(n + 1), separator);
        let fields = split(text, separator);
        let tail = split(text.skip(n + 1), separator);
        assert forall|i: int| 0 <= i < fields.len() implies !(#[trigger] fields[i]).contains(
            separator,
        ) by {
            if i > 0 {
                assert(fields[i] == tail[i - 1]);
            }
        }
    }
}

/// Joining puts the first field and a separator in front of the others.
pub proof fn lemma_join_first(fields: Seq<Seq<char>>, separator: Seq<char>)
    requires
        fields.len() >= 2,
    ensures
        join(fields, separator) == fields[0] + separator + join(fields.drop_first(), separator),
    decreases fields.len(),
{
    let tail = fields.drop_first();
    if fields.len() == 2 {
        assert(fields.drop_last() =~= seq![fields[0]]);
        assert(tail =~= seq![fields[1]]);
        assert(join(fields.drop_last(), separator) == fields[0]);
        assert(join(tail, separator) == fields[1]);
    } else {
        let front = fields.drop_last();
        lemma_join_first(front, separator);
        assert(front.drop_first() =~= tail.drop_last());
        assert(join(fields, separator) =~= fields[0] + separator + join(tail, separator));
    }
}

/// The fields of a text join to the text.
pub proof fn lemma_split_whole(text: Seq<char>, separator: char)
    ensures
        join(split(text, separator), seq![separator]) == text,
    decreases text.len(),
{
    lemma_span(text, separator);
    let n = span(text, separator) as int;
    if n < text.len() {
        let tail = text.skip(n + 1);
        lemma_split_whole(tail, separator);
        lemma_split_fields(tail, separator);
        let fields = split(text, separator);
        assert(fields.drop_first() =~= split(tail, separator));
        lemma_join_first(fields, seq![separator]);
        assert(text.take(n) + seq![separator] + tail =~= text);
    }
}

/// Fewer fields join to a shorter text.
pub proof fn lemma_join_shorter(fields: Seq<Seq<char>>, separator: char, n: int)
    requires
        0 <= n < fields.len(),
        n > 0 || exists|i: int| 0 <= i < fields.len() && (#[trigger] fields[i]).len() > 0,
    ensures
        join(fields.take(n), seq![separator]).len() < join(fields, seq![separator]).len(),
    decreases fields.len(),
{
    let front = fields.drop_last();
    if fields.len() == 1 {
    } else if n == front.len() {
        assert(fields.take(n) =~= front);
    } else if n > 0 {
        assert(front.take(n) =~= fields.take(n));
        lemma_join_shorter(front, separator, n);
    } else {
        assert(join(fields, seq![separator]).len() >= 1);
    }
}

/// Fields that do not hold the separator come back from their joined text.
pub proof fn lemma_join_split(fields: Seq<Seq<char>>, separator: char)
    requires
        fields.len() >= 1,
        forall|i: int|
            0 <= i < fields.len() ==> !(#[trigger] fields[i]).contains(separator),
    ensures
        split(join(fields, seq![separator]), separator) == fields,
    decreases fields.len(),
{
    if fields.len() == 1 {
        let only = fields[0];
        lemma_span(only, separator);
        let n = span(only, separator) as int;
        if n < only.len() {
            assert(only.contains(separator)) by {
                assert(only[n] == separator);
            }
        }
        assert(split(only, separator) =~= fields);
    } else {
        let front = fields.drop_last();
        assert forall|i: int| 0 <= i < front.len() implies !(#[trigger] front[i]).contains(
            separator,
        ) by {
            assert(front[i] == fields[i]);
        }
        lemma_join_split(front, separator);
        let last = fields.last();
        assert forall|i: int| 0 <= i < seq![last].len() implies !(#[trigger] seq![last][i]).contains(
            separator,
        ) by {
            assert(last == fields[fields.len() - 1]);
        }
        lemma_join_split(seq![last], separator);
        assert(join(seq![last], seq![separator]) == last);
        lemma_split_join(join(front, seq![separator]), separator, last);
        assert(front + seq![last] =~= fields);
    }
}

/// A word that white space follows ends there.
proof fn lemma_word_front(word: Seq<char>, rest: Seq<char>)
    requires
        forall|i: int| 0 <= i < word.len() ==> !is_space(#[trigger] word[i]),
        rest.len() == 0 || is_space(rest[0]),
    ensures
        word_span(word + rest) == word.len(),
    decreases word.len(),
{
    if word.len() == 0 {
        assert(word + rest =~= rest);
    } else {
        let tail = word.drop_first();
        assert((word + rest).drop_first() =~= tail + rest);
        assert forall|i: int| 0 <= i < tail.len() implies !is_space(#[trigger] tail[i]) by {
            assert(tail[i] == word[i + 1]);
        }
        lemma_word_front(tail, rest);
        assert((word + rest)[0] == word[0]);
    }
}

/// Words that are joined with spaces come back.
pub proof fn lemma_join_words(list: Seq<Seq<char>>)
    requires
        forall|i: int, j: int|
            0 <= i < list.len() && 0 <= j < list[i].len() ==> !is_space(#[trigger] list[i][j]),
        forall|i: int| 0 <= i < list.len() ==> (#[trigger] list[i]).len() > 0,
    ensures
        words(join(list, seq![' '])) == list,
    decreases list.len(),
{
    let text = join(list, seq![' ']);
    if list.len() == 0 {
        assert(words(text) =~= list);
    } else {
        let first = list[0];
        let rest = if list.len() == 1 {
            seq![]
        } else {
            seq![' '] + join(list.drop_first(), seq![' '])
        };
        if list.len() >= 2 {
            lemma_join_first(list, seq![' ']);
        }
        assert(text =~= first + rest);
        assert forall|i: int| 0 <= i < first.len() implies !is_space(#[trigger] first[i]) by {
            assert(!is_space(list[0][i]));
        }
        lemma_word_front(first, rest);
        assert(trim_start(text) == text) by {
            assert(!is_space(list[0][0]));
            assert(text[0] == list[0][0]);
        }
        let n = first.len() as int;
        assert(text.take(n) =~= first);
        assert(text.skip(n) =~= rest);
        assert(words(text) == seq![first] + words(rest));
        if list.len() == 1 {
            assert(words(rest) =~= seq![]);
            assert(words(text) =~= list);
        } else {
            let tail = list.drop_first();
            assert forall|i: int, j: int|
                0 <= i < tail.len() && 0 <= j < tail[i].len() implies !is_space(
                #[trigger] tail[i][j],
            ) by {
                assert(tail[i] == list[i + 1]);
                assert(!is_space(list[i + 1][j]));
            }
            assert forall|i: int| 0 <= i < tail.len() implies (#[trigger] tail[i]).len() > 0 by {
                assert(tail[i] == list[i + 1]);
            }
            lemma_join_words(tail);
            assert(rest.drop_first() =~= join(tail, seq![' ']));
            assert(trim_start(rest) == trim_start(rest.drop_first()));
            assert(words(rest) == words(join(tail, seq![' '])));
            assert(words(text) =~= list);
        }
    }
}

/// Appends a text.
pub fn append(text: &mut String, other: &str)
    ensures
        final(text)@ == old(text)@ + other@,
{
    let ghost before = text@;
    assert(before + other@.take(0) =~= before);
    for c in iter: other.chars()
        invariant
            iter.seq() == other@,
            text@ == before + other@.take(iter.index() as int),
    {
        proof {
            let i = iter.index() as int;
            assert(before + other@.take(i + 1) =~= (before + other@.take(i)).push(other@[i]));
        }
        text.push(c);
    }
    assert(other@.take(other@.len() as int) =~= other@);
}

/// Whether a text begins with a given character.
pub fn begins_with(text: &str, c: char) -> (result: bool)
    ensures
        result == (text@.len() > 0 && text@[0] == c),
{
    let chars = chars_of(text);
    chars.len() > 0 && chars[0] == c
}

/// Whether a text holds a given character.
pub fn contains_char(text: &str, c: char) -> (result: bool)
    ensures
        result == text@.contains(c),
{
    let chars = chars_of(text);
    let n = find_char(chars.as_slice(), c);
    proof {
        lemma_span(text@, c);
        if text@.contains(c) {
            let i = choose|i: int| 0 <= i < text@.len() && text@[i] == c;
            assert(!(i < n));
        }
        if n < text@.len() {
            assert(text@[n as int] == c);
        }
    }
    n < chars.len()
}

/// The text behind a prefix, where the prefix is there.
pub open spec fn after_prefix(text: Seq<char>, prefix: Seq<char>) -> Option<Seq<char>> {
    if prefix.is_prefix_of(text) {
        Some(text.skip(prefix.len() as int))
    } else {
        None
    }
}

/// Removes a prefix.
pub fn strip_prefix(text: &str, prefix: &str) -> (rest: Option<String>)
    ensures
        optional_text(rest) == after_prefix(text@, prefix@),
{
    let chars = chars_of(text);
    let head = chars_of(prefix);
    if head.len() > chars.len() {
        return None;
    }
    let mut i: usize = 0;
    while i < head.len()
        invariant
            i <= head@.len() <= chars@.len(),
            chars@ == text@,
            head@ == prefix@,
            forall|j: int| 0 <= j < i ==> chars@[j] == head@[j],
        decreases head@.len() - i,
    {
        if chars[i] != head[i] {
            assert(text@.subrange(0, prefix@.len() as int)[i as int] != prefix@[i as int]);
            return None;
        }
        i = i + 1;
    }
    assert(prefix@ =~= text@.subrange(0, prefix@.len() as int));
    let rest = string_of(slice_subrange(chars.as_slice(), head.len(), chars.len()));
    assert(rest@ =~= text@.skip(prefix@.len() as int));
    Some(rest)
}

/// The value of a digit in a radix of at most 36.
pub open spec fn digit_value(c: char, radix: nat) -> Option<nat> {
    let value: int = if '0' <= c <= '9' {
        c as int - '0' as int
    } else if 'a' <= c <= 'z' {
        c as int - 'a' as int + 10
    } else if 'A' <= c <= 'Z' {
        c as int - 'A' as int + 10
    } else {
        radix as int
    };
    if value < radix {
        Some(value as nat)
    } else {
        None
    }
}

/// The number that a run of digits denotes, if all of them are digits.
pub open spec fn digits_value(text: Seq<char>, radix: nat) -> Option<nat>
    decreases text.len(),
{
    if text.len() == 0 {
        Some(0)
    } else {
        match (digits_value(text.drop_last(), radix), digit_value(text.last(), radix)) {
            (Some(high), Some(low)) => Some(high * radix + low),
            _ => None,
        }
    }
}

/// The digits of an unsigned number behind an optional plus sign.
pub open spec fn unsigned_digits(text: Seq<char>) -> Seq<char> {
    if text.len() > 0 && text[0] == '+' {
        text.drop_first()
    } else {
        text
    }
}

/// The number that a text denotes: an optional plus sign and at least one
/// digit, with a value of at most `max`.
pub open spec fn unsigned_value(text: Seq<char>, radix: nat, max: nat) -> Option<nat> {
    let digits = unsigned_digits(text);
    match digits_value(digits, radix) {
        Some(value) => if digits.len() > 0 && value <= max {
            Some(value)
        } else {
            None
        },
        None => None,
    }
}

/// The number that a text denotes: an optional sign and at least one digit,
/// with a value that fits 64 bits.
pub open spec fn signed_value(text: Seq<char>) -> Option<int> {
    if text.len() > 0 && text[0] == '-' {
        match digits_value(text.drop_first(), 10) {
            Some(value) => if text.len() > 1 && value <= 0x8000_0000_0000_0000 {
                Some(-value)
            } else {
                None
            },
            None => None,
        }
    } else {
        match unsigned_value(text, 10, 0x7fff_ffff_ffff_ffff) {
            Some(value) => Some(value as int),
            None => None,
        }
    }
}

/// A longer run of digits denotes no smaller number.
proof fn lemma_digits_grow(text: Seq<char>, radix: nat, n: int)
    requires
        0 <= n <= text.len(),
        radix >= 1,
        digits_value(text, radix) is Some,
    ensures
        digits_value(text.take(n), radix) is Some,
        digits_value(text.take(n), radix)->0 <= digits_value(text, radix)->0,
    decreases text.len(),
{
    if n == text.len() {
        assert(text.take(n) =~= text);
    } else {
        lemma_digits_grow(text.drop_last(), radix, n);
        assert(text.drop_last().take(n) =~= text.take(n));
        let high = digits_value(text.drop_last(), radix)->0;
        assert(high <= high * radix) by (nonlinear_arith)
            requires
                radix >= 1,
        ;
    }
}

/// Reads one digit.
fn digit(c: char, radix: u64) -> (value: Option<u64>)
    requires
        2 <= radix <= 36,
    ensures
        value is Some == digit_value(c, radix as nat) is Some,
        value is Some ==> value->0 == digit_value(c, radix as nat)->0 && value->0 < radix,
{
    let code: u64 = c as u64;
    let value: u64 = if c >= '0' && c <= '9' {
        code - 48
    } else if c >= 'a' && c <= 'z' {
        code - 87
    } else if c >= 'A' && c <= 'Z' {
        code - 55
    } else {
        radix
    };
    if value < radix {
        Some(value)
    } else {
        None
    }
}

/// Reads a run of digits whose value is at most `max`.
fn read_digits(text: &[char], radix: u64, max: u64) -> (value: Option<u64>)
    requires
        2 <= radix <= 36,
    ensures
        value is Some == (digits_value(text@, radix as nat) is Some && digits_value(
            text@,
            radix as nat,
        )->0 <= max),
        value is Some ==> value->0 == digits_value(text@, radix as nat)->0,
{
    let mut total: u64 = 0;
    let mut i: usize = 0;
    assert(text@.take(0) =~= seq![]);
    while i < text.len()
        invariant
            2 <= radix <= 36,
            i <= text@.len(),
            total <= max,
            digits_value(text@.take(i as int), radix as nat) == Some(total as nat),
        decreases text@.len() - i,
    {
        let ghost next = text@.take(i + 1);
        proof {
            assert(next.drop_last() =~= text@.take(i as int));
            if digits_value(text@, radix as nat) is Some {
                lemma_digits_grow(text@, radix as nat, i + 1);
            }
        }
        match digit(text[i], radix) {
            None => {
                return None;
            },
            Some(low) => {
                assert(0 <= total * radix <= u64::MAX * 36) by (nonlinear_arith)
                    requires
                        0 <= total <= u64::MAX,
                        0 <= radix <= 36,
                ;
                let sum: u128 = (total as u128) * (radix as u128) + (low as u128);
                if sum > max as u128 {
                    return None;
                }
                total = sum as u64;
            },
        }
        i = i + 1;
    }
    assert(text@.take(i as int) =~= text@);
    Some(total)
}

/// Parses an unsigned number of at most `max`.
pub fn parse_unsigned(text: &str, radix: u64, max: u64) -> (value: Option<u64>)
    requires
        2 <= radix <= 36,
    ensures
        value is Some == unsigned_value(text@, radix as nat, max as nat) is Some,
        value is Some ==> value->0 == unsigned_value(text@, radix as nat, max as nat)->0,
{
    let chars = chars_of(text);
    let start: usize = if chars.len() > 0 && chars[0] == '+' {
        1
    } else {
        0
    };
    let digits = slice_subrange(chars.as_slice(), start, chars.len());
    assert(digits@ =~= unsigned_digits(text@));
    if digits.len() == 0 {
        return None;
    }
    read_digits(digits, radix, max)
}

/// Whether some run of digits at the front already exceeds the largest value.
pub open spec fn front_exceeds(digits: Seq<char>, radix: nat, max: nat) -> bool {
    exists|n: int|
        0 <= n <= digits.len() && (#[trigger] digits_value(digits.take(n), radix)) is Some
            && digits_value(digits.take(n), radix)->0 > max
}

/// What is wrong with a text that denotes no unsigned number: it is empty, it
/// exceeds the largest value, or it holds something that is no digit, whichever
/// comes first.
pub open spec fn unsigned_complaint(text: Seq<char>, radix: nat, max: nat) -> Seq<char> {
    if text.len() == 0 {
        "cannot parse integer from empty string"@
    } else if front_exceeds(unsigned_digits(text), radix, max) {
        "number too large to fit in target type"@
    } else {
        "invalid digit found in string"@
    }
}

/// What is wrong with a text that denotes no number of 64 bits.
pub open spec fn signed_complaint(text: Seq<char>) -> Seq<char> {
    if text.len() > 0 && text[0] == '-' {
        if front_exceeds(text.drop_first(), 10, 0x8000_0000_0000_0000) {
            "number too small to fit in target type"@
        } else {
            "invalid digit found in string"@
        }
    } else {
        unsigned_complaint(text, 10, 0x7fff_ffff_ffff_ffff)
    }
}

/// Whether some run of digits at the front exceeds the largest value.
fn exceeds(digits: &[char], radix: u64, max: u64) -> (result: bool)
    requires
        2 <= radix <= 36,
    ensures
        result == front_exceeds(digits@, radix as nat, max as nat),
{
    let mut i: usize = 0;
    let mut total: u64 = 0;
    assert(digits@.take(0) =~= seq![]);
    while i < digits.len()
        invariant
            2 <= radix <= 36,
            i <= digits@.len(),
            total <= max,
            digits_value(digits@.take(i as int), radix as nat) == Some(total as nat),
        decreases digits@.len() - i,
    {
        let ghost next = digits@.take(i + 1);
        assert(next.drop_last() =~= digits@.take(i as int));
        match digit(digits[i], radix) {
            None => {
                proof {
                    assert forall|n: int| 0 <= n <= digits@.len() && (#[trigger] digits_value(
                        digits@.take(n),
                        radix as nat,
                    )) is Some implies digits_value(digits@.take(n), radix as nat)->0 <= max by {
                        let front = digits@.take(n);
                        if n <= i {
                            lemma_digits_grow(digits@.take(i as int), radix as nat, n);
                            assert(digits@.take(i as int).take(n) =~= front);
                        } else {
                            lemma_digits_grow(front, radix as nat, i + 1);
                            assert(front.take(i + 1) =~= next);
                        }
                    }
                }
                return false;
            },
            Some(low) => {
                assert(0 <= total * radix <= u64::MAX * 36) by (nonlinear_arith)
                    requires
                        0 <= total <= u64::MAX,
                        0 <= radix <= 36,
                ;
                let sum: u128 = (total as u128) * (radix as u128) + (low as u128);
                if sum > max as u128 {
                    assert(digits_value(digits@.take(i + 1), radix as nat) is Some);
                    return true;
                }
                total = sum as u64;
            },
        }
        i = i + 1;
    }
    proof {
        assert(digits@.take(i as int) =~= digits@);
        assert forall|n: int| 0 <= n <= digits@.len() && (#[trigger] digits_value(
            digits@.take(n),
            radix as nat,
        )) is Some implies digits_value(digits@.take(n), radix as nat)->0 <= max by {
            lemma_digits_grow(digits@, radix as nat, n);
        }
    }
    false
}

/// Parses an unsigned number, and says what is wrong where there is none.
pub fn read_unsigned(text: &str, radix: u64, max: u64) -> (value: Result<u64, String>)
    requires
        2 <= radix <= 36,
    ensures
        match value {
            Ok(value) => unsigned_value(text@, radix as nat, max as nat) == Some(value as nat),
            Err(complaint) => {
                &&& unsigned_value(text@, radix as nat, max as nat) is None
                &&& complaint@ == unsigned_complaint(text@, radix as nat, max as nat)
            },
        },
{
    match parse_unsigned(text, radix, max) {
        Some(value) => Ok(value),
        None => {
            let chars = chars_of(text);
            if chars.len() == 0 {
                return Err(copy_text("cannot parse integer from empty string"));
            }
            let start: usize = if chars[0] == '+' {
                1
            } else {
                0
            };
            let digits = slice_subrange(chars.as_slice(), start, chars.len());
            assert(digits@ =~= unsigned_digits(text@));
            if exceeds(digits, radix, max) {
                Err(copy_text("number too large to fit in target type"))
            } else {
                Err(copy_text("invalid digit found in string"))
            }
        },
    }
}

/// Parses a number of 64 bits, and says what is wrong where there is none.
pub fn read_signed(text: &str) -> (value: Result<i64, String>)
    ensures
        match value {
            Ok(value) => signed_value(text@) == Some(value as int),
            Err(complaint) => signed_value(text@) is None && complaint@ == signed_complaint(text@),
        },
{
    match parse_i64(text) {
        Some(value) => Ok(value),
        None => {
            let chars = chars_of(text);
            if chars.len() > 0 && chars[0] == '-' {
                let digits = slice_subrange(chars.as_slice(), 1, chars.len());
                assert(digits@ =~= text@.drop_first());
                if exceeds(digits, 10, 0x8000_0000_0000_0000) {
                    Err(copy_text("number too small to fit in target type"))
                } else {
                    Err(copy_text("invalid digit found in string"))
                }
            } else {
                match read_unsigned(text, 10, 0x7fff_ffff_ffff_ffff) {
                    Ok(_) => Err(String::new()),
                    Err(complaint) => Err(complaint),
                }
            }
        },
    }
}

/// Whether a call failed with a message.
pub open spec fn complains<T>(result: Result<T, String>, message: Seq<char>) -> bool {
    result is Err && result->Err_0@ == message
}

/// Parses a port number.
pub fn parse_u16(text: &str) -> (value: Option<u16>)
    ensures
        value is Some == unsigned_value(text@, 10, 0xffff) is Some,
        value is Some ==> value->0 == unsigned_value(text@, 10, 0xffff)->0,
{
    match parse_unsigned(text, 10, 0xffff) {
        Some(value) => Some(value as u16),
        None => None,
    }
}

/// Parses a signed number of 64 bits.
pub fn parse_i64(text: &str) -> (value: Option<i64>)
    ensures
        value is Some == signed_value(text@) is Some,
        value is Some ==> value->0 == signed_value(text@)->0,
{
    let chars = chars_of(text);
    if chars.len() > 0 && chars[0] == '-' {
        if chars.len() == 1 {
            return None;
        }
        let digits = slice_subrange(chars.as_slice(), 1, chars.len());
        assert(digits@ =~= text@.drop_first());
        match read_digits(digits, 10, 0x8000_0000_0000_0000) {
            None => None,
            Some(value) => if value == 0x8000_0000_0000_0000 {
                Some(i64::MIN)
            } else {
                Some(-(value as i64))
            },
        }
    } else {
        match parse_unsigned(text, 10, 0x7fff_ffff_ffff_ffff) {
            Some(value) => Some(value as i64),
            None => None,
        }
    }
}

/// The character of a digit below 16.
pub open spec fn digit_char(value: nat) -> char {
    if value < 10 {
        ('0' as int + value) as char
    } else {
        ('a' as int + value - 10) as char
    }
}

/// The digits of a number, at least `width` of them.
pub open spec fn number(value: nat, radix: nat, width: nat) -> Seq<char>
    decreases value + width,
    when radix >= 2
{
    let rest = if width == 0 {
        0
    } else {
        (width - 1) as nat
    };
    proof {
        assert(value > 0 ==> value / radix < value) by (nonlinear_arith)
            requires
                radix >= 2,
        ;
        assert(value == 0 ==> value / radix == 0) by (nonlinear_arith)
            requires
                radix >= 2,
        ;
    }
    if value == 0 && width == 0 {
        seq![]
    } else {
        number(value / radix, radix, rest).push(digit_char(value % radix))
    }
}

/// The decimal digits of a number.
pub open spec fn decimal(value: nat) -> Seq<char> {
    number(value, 10, 1)
}

/// The hexadecimal digits of a number, at least `width` of them.
pub open spec fn hex(value: nat, width: nat) -> Seq<char> {
    number(value, 16, width)
}

/// Writes one digit below 16.
fn digit_text(value: u64) -> (c: char)
    requires
        value < 16,
    ensures
        c == digit_char(value as nat),
{
    let code: u8 = if value < 10 {
        48 + value as u8
    } else {
        87 + value as u8
    };
    code as char
}

/// Writes a number.
pub fn format_number(value: u64, radix: u64, width: usize) -> (text: String)
    requires
        2 <= radix <= 16,
    ensures
        text@ == number(value as nat, radix as nat, width as nat),
    decreases value + width,
{
    let rest: usize = if width == 0 {
        0
    } else {
        width - 1
    };
    if value == 0 && width == 0 {
        return String::new();
    }
    assert(value > 0 ==> value / radix < value) by (nonlinear_arith)
        requires
            radix >= 2,
    ;
    assert(value == 0 ==> value / radix == 0) by (nonlinear_arith)
        requires
            radix >= 2,
    ;
    let mut text = format_number(value / radix, radix, rest);
    assert(value % radix < radix) by (nonlinear_arith)
        requires
            radix >= 2,
    ;
    text.push(digit_text(value % radix));
    text
}

/// Writes a number in decimal.
pub fn format_decimal(value: u64) -> (text: String)
    ensures
        text@ == decimal(value as nat),
{
    format_number(value, 10, 1)
}

/// The decimal digits of a number, behind a sign where it is below zero.
pub open spec fn signed_decimal(value: int) -> Seq<char> {
    if value < 0 {
        "-"@ + decimal((-value) as nat)
    } else {
        decimal(value as nat)
    }
}

/// Writes a number in decimal, with its sign.
pub fn format_signed(value: i64) -> (text: String)
    ensures
        text@ == signed_decimal(value as int),
{
    if value < 0 {
        let size: u64 = (-(value as i128)) as u64;
        plus(copy_text("-"), &format_decimal(size))
    } else {
        format_decimal(value as u64)
    }
}

/// The digits are those of the alphabet of numbers, in its order, and none stands for
/// more than the radix allows. Upper-case letters count as lower-case ones.
pub proof fn digits_have_their_values(i: int, radix: nat)
    requires
        0 <= i < 36,
        2 <= radix <= 36,
    ensures
        ({
            let c = "0123456789abcdefghijklmnopqrstuvwxyz"@[i];
            let upper = "0123456789ABCDEFGHIJKLMNOPQRSTUVWXYZ"@[i];
            &&& digit_value(c, radix) == if i < radix {
                Some(i as nat)
            } else {
                None
            }
            &&& digit_value(upper, radix) == digit_value(c, radix)
            &&& i < 16 ==> digit_char(i as nat) == c
        }),
{
    reveal_strlit("0123456789abcdefghijklmnopqrstuvwxyz");
    reveal_strlit("0123456789ABCDEFGHIJKLMNOPQRSTUVWXYZ");
}

/// Nothing but a digit or a letter has a value.
pub proof fn other_characters_have_no_value(c: char, radix: nat)
    requires
        2 <= radix <= 36,
        !('0' <= c <= '9'),
        !('a' <= c <= 'z'),
        !('A' <= c <= 'Z'),
    ensures
        digit_value(c, radix) is None,
{
}

/// A digit more makes a number its radix times as large, and adds its own value.
pub proof fn digits_weigh_by_their_place(front: Seq<char>, c: char, radix: nat)
    ensures
        digits_value(seq![], radix) == Some(0nat),
        digits_value(front.push(c), radix) == match (
            digits_value(front, radix),
            digit_value(c, radix),
        ) {
            (Some(high), Some(low)) => Some(radix * high + low),
            _ => None,
        },
{
    assert(front.push(c).drop_last() =~= front);
    if let Some(high) = digits_value(front, radix) {
        assert(high * radix == radix * high) by (nonlinear_arith);
    }
}

/// A number that is written is read back, in the radix that it was written in. It has
/// at least as many digits as it was asked for, and no more than it needs beyond that.
pub proof fn numbers_are_read_back(value: nat, radix: nat, width: nat)
    requires
        2 <= radix <= 16,
    ensures
        ({
            let text = number(value, radix, width);
            &&& digits_value(text, radix) == Some(value)
            &&& text.len() >= width
            &&& text.len() > width ==> text[0] != '0'
            &&& value == 0 ==> text.len() == width
            &&& value > 0 ==> text.len() > 0
            &&& forall|i: int|
                0 <= i < text.len() ==> '0' <= #[trigger] text[i] <= '9' || 'a' <= text[i] <= 'f'
            &&& radix == 10 ==> forall|i: int|
                0 <= i < text.len() ==> '0' <= #[trigger] text[i] <= '9'
        }),
    decreases value + width,
{
    let text = number(value, radix, width);
    if value == 0 && width == 0 {
    } else {
        let rest = if width == 0 {
            0
        } else {
            (width - 1) as nat
        };
        let high = value / radix;
        let low = value % radix;
        assert(value > 0 ==> high < value) by (nonlinear_arith)
            requires
                radix >= 2,
                high == value / radix,
        ;
        assert(value == 0 ==> high == 0) by (nonlinear_arith)
            requires
                radix >= 2,
                high == value / radix,
        ;
        assert(value == high * radix + low && 0 <= low < radix) by (nonlinear_arith)
            requires
                radix >= 2,
                high == value / radix,
                low == value % radix,
        ;
        numbers_are_read_back(high, radix, rest);
        let front = number(high, radix, rest);
        assert(text == front.push(digit_char(low)));
        assert(text.drop_last() =~= front);
        digits_have_their_values(low as int, radix);
        reveal_strlit("0123456789abcdefghijklmnopqrstuvwxyz");
        if front.len() > 0 {
            assert(text[0] == front[0]);
        }
        if text.len() > width && front.len() == 0 {
            assert(high == 0);
            assert(low > 0);
        }
    }
}

/// A number in decimals is read as what it is, as long as it is not too large.
pub proof fn decimals_are_read_back(value: nat, max: nat)
    ensures
        unsigned_value(decimal(value), 10, max) == if value <= max {
            Some(value)
        } else {
            None
        },
        unsigned_value("+"@ + decimal(value), 10, max) == unsigned_value(decimal(value), 10, max),
        unsigned_value(seq![], 10, max) is None,
        unsigned_value("-"@ + decimal(value), 10, max) is None,
        decimal(value).len() > 0,
        value > 0 ==> decimal(value)[0] != '0',
{
    numbers_are_read_back(value, 10, 1);
    let text = decimal(value);
    assert(text.len() > 0);
    assert('0' <= text[0] <= '9');
    reveal_strlit("+");
    reveal_strlit("-");
    assert(("+"@ + text).drop_first() =~= text);
    let negative = "-"@ + text;
    assert(unsigned_digits(negative) == negative);
    lemma_bad_digit(negative, 0, 10);
    if value > 0 && text.len() == 1 {
        assert(text[0] != '0') by {
            if text[0] == '0' {
                assert(text.drop_last() =~= seq![]);
                assert(digits_value(text, 10) == Some(0nat));
            }
        }
    }
}

/// A text with a character that is no digit has no value.
proof fn lemma_bad_digit(text: Seq<char>, i: int, radix: nat)
    requires
        0 <= i < text.len(),
        digit_value(text[i], radix) is None,
    ensures
        digits_value(text, radix) is None,
    decreases text.len(),
{
    if i < text.len() - 1 {
        lemma_bad_digit(text.drop_last(), i, radix);
    }
}

/// A number with its sign is read as what it is, within 64 bits.
pub proof fn signed_decimals_are_read_back(value: int)
    ensures
        signed_value(signed_decimal(value)) == if -0x8000_0000_0000_0000 <= value
            <= 0x7fff_ffff_ffff_ffff {
            Some(value)
        } else {
            None
        },
        value >= 0 ==> signed_decimal(value) == decimal(value as nat),
        value < 0 ==> signed_decimal(value) == "-"@ + decimal((-value) as nat),
{
    reveal_strlit("-");
    let size = if value < 0 {
        (-value) as nat
    } else {
        value as nat
    };
    decimals_are_read_back(size, 0x7fff_ffff_ffff_ffff);
    numbers_are_read_back(size, 10, 1);
    let text = decimal(size);
    assert('0' <= text[0] <= '9');
    if value < 0 {
        assert(("-"@ + text).drop_first() =~= text);
    }
}

/// A text is split at each separator: the fields are what stands between them.
pub proof fn splitting_and_joining(fields: Seq<Seq<char>>, separator: char, text: Seq<char>)
    requires
        fields.len() > 0,
        forall|i: int| 0 <= i < fields.len() ==> !(#[trigger] fields[i]).contains(separator),
    ensures
        split(join(fields, seq![separator]), separator) == fields,
        join(split(text, separator), seq![separator]) == text,
        !text.contains(separator) ==> split(text, separator) == seq![text],
        join(seq![text], seq![separator]) == text,
        fields.len() > 1 ==> join(fields, seq![separator]) == fields[0] + seq![separator] + join(
            fields.drop_first(),
            seq![separator],
        ),
{
    lemma_join_split(fields, separator);
    lemma_split_whole(text, separator);
    if fields.len() > 1 {
        lemma_join_first(fields, seq![separator]);
    }
    if !text.contains(separator) {
        assert forall|i: int| 0 <= i < text.len() implies text[i] != separator by {
            assert(text.contains(text[i]));
        }
        lemma_span_is(text, separator, text.len() as int);
    }
}

/// A line ends at a newline, without the carriage return before it. What follows the
/// last newline is a line if it is not empty.
pub proof fn lines_end_at_newlines(line: Seq<char>, rest: Seq<char>)
    requires
        !line.contains('\n'),
    ensures
        lines(seq![]) == Seq::<Seq<char>>::empty(),
        line.len() > 0 ==> lines(line) == seq![line],
        lines(line + "\r\n"@ + rest) == seq![line] + lines(rest),
        line.len() == 0 || line.last() != '\r' ==> lines(line + "\n"@ + rest) == seq![line] + lines(
            rest,
        ),
{
    reveal_strlit("\r\n");
    reveal_strlit("\n");
    assert forall|i: int| 0 <= i < line.len() implies line[i] != '\n' by {
        assert(line.contains(line[i]));
    }
    let n = line.len() as int;
    lemma_span_is(line, '\n', n);
    let plain = line + "\n"@ + rest;
    lemma_span_is(plain, '\n', n);
    assert(plain.take(n) =~= line);
    assert(plain.skip(n + 1) =~= rest);
    let returned = line + "\r\n"@ + rest;
    assert forall|i: int| 0 <= i < n + 1 implies returned[i] != '\n' by {}
    assert(returned[n + 1] == '\n');
    lemma_span_is(returned, '\n', n + 1);
    assert(returned.take(n + 1) =~= line.push('\r'));
    assert(line.push('\r').drop_last() =~= line);
    assert(returned.skip(n + 2) =~= rest);
}

/// The characters that count as space: those that Unicode gives the property of white
/// space.
pub proof fn spaces_are_white_space(c: char)
    ensures
        is_space(c) <==> seq![
            0x9u32,
            0xa,
            0xb,
            0xc,
            0xd,
            0x20,
            0x85,
            0xa0,
            0x1680,
            0x2000,
            0x2001,
            0x2002,
            0x2003,
            0x2004,
            0x2005,
            0x2006,
            0x2007,
            0x2008,
            0x2009,
            0x200a,
            0x2028,
            0x2029,
            0x202f,
            0x205f,
            0x3000,
        ].contains(c as u32),
{
    let list = seq![
        0x9u32,
        0xa,
        0xb,
        0xc,
        0xd,
        0x20,
        0x85,
        0xa0,
        0x1680,
        0x2000,
        0x2001,
        0x2002,
        0x2003,
        0x2004,
        0x2005,
        0x2006,
        0x2007,
        0x2008,
        0x2009,
        0x200a,
        0x2028,
        0x2029,
        0x202f,
        0x205f,
        0x3000,
    ];
    let code = c as u32;
    if is_space(c) {
        let i: int = if 0x9 <= code <= 0xd {
            code - 0x9
        } else if code == 0x20 {
            5
        } else if code == 0x85 {
            6
        } else if code == 0xa0 {
            7
        } else if code == 0x1680 {
            8
        } else if 0x2000 <= code <= 0x200a {
            code - 0x2000 + 9
        } else if code == 0x2028 {
            20
        } else if code == 0x2029 {
            21
        } else if code == 0x202f {
            22
        } else if code == 0x205f {
            23
        } else {
            24
        };
        assert(list[i] == code);
    }
}

/// Whether a text is made of space alone.
pub open spec fn blank(text: Seq<char>) -> bool {
    forall|i: int| 0 <= i < text.len() ==> is_space(#[trigger] text[i])
}

/// A text without the space around it: what begins and ends with another character, or
/// is empty, stays as it is, whatever space stands around it.
pub proof fn space_around_a_text_goes(front: Seq<char>, text: Seq<char>, back: Seq<char>)
    requires
        blank(front),
        blank(back),
        text.len() == 0 || !is_space(text[0]) && !is_space(text.last()),
    ensures
        trim(front + text + back) == text,
        trim_end(text + back) == text,
        text.len() > 0 ==> trim_start(front + text) == text,
{
    lemma_trim_front(front, text + back);
    assert(front + text + back =~= front + (text + back));
    lemma_trim_back(text, back);
    lemma_trim_front(front, text);
    if text.len() == 0 {
        assert(text + back =~= back);
        lemma_trim_front(back, seq![]);
        assert(back + Seq::<char>::empty() =~= back);
        assert(trim_end(Seq::<char>::empty()) == Seq::<char>::empty());
    } else {
        assert((text + back)[0] == text[0]);
        assert(trim_start(text + back) == text + back);
    }
}

/// Space in front goes.
proof fn lemma_trim_front(front: Seq<char>, text: Seq<char>)
    requires
        blank(front),
    ensures
        trim_start(front + text) == trim_start(text),
    decreases front.len(),
{
    if front.len() > 0 {
        let rest = front.drop_first();
        assert forall|i: int| 0 <= i < rest.len() implies is_space(#[trigger] rest[i]) by {
            assert(rest[i] == front[i + 1]);
        }
        lemma_trim_front(rest, text);
        assert((front + text).drop_first() =~= rest + text);
        assert((front + text)[0] == front[0]);
    } else {
        assert(front + text =~= text);
    }
}

/// Space behind goes.
proof fn lemma_trim_back(text: Seq<char>, back: Seq<char>)
    requires
        blank(back),
        text.len() == 0 || !is_space(text.last()),
    ensures
        trim_end(text + back) == text,
    decreases back.len(),
{
    if back.len() > 0 {
        let rest = back.drop_last();
        assert forall|i: int| 0 <= i < rest.len() implies is_space(#[trigger] rest[i]) by {
            assert(rest[i] == back[i]);
        }
        lemma_trim_back(text, rest);
        assert((text + back).drop_last() =~= text + rest);
        assert((text + back).last() == back.last());
    } else {
        assert(text + back =~= text);
    }
}

/// A word ends at the first space, and space before it does not count.
pub proof fn words_are_parted_by_space(front: Seq<char>, word: Seq<char>, rest: Seq<char>)
    requires
        blank(front),
        word.len() > 0,
        forall|i: int| 0 <= i < word.len() ==> !is_space(#[trigger] word[i]),
        rest.len() == 0 || is_space(rest[0]),
    ensures
        words(front + word + rest) == seq![word] + words(rest),
        words(front) == Seq::<Seq<char>>::empty(),
{
    assert(front + word + rest =~= front + (word + rest));
    lemma_trim_front(front, word + rest);
    assert((word + rest)[0] == word[0]);
    lemma_word_front(word, rest);
    assert((word + rest).take(word.len() as int) =~= word);
    assert((word + rest).skip(word.len() as int) =~= rest);
    lemma_trim_front(front, seq![]);
    assert(front + Seq::<char>::empty() =~= front);
}

/// What follows a prefix is the rest of the text, and there is a rest only where the
/// text begins with the prefix.
pub proof fn prefixes_are_taken_off(prefix: Seq<char>, rest: Seq<char>, text: Seq<char>)
    ensures
        after_prefix(prefix + rest, prefix) == Some(rest),
        after_prefix(text, prefix) matches Some(left) ==> text == prefix + left,
{
    assert((prefix + rest).skip(prefix.len() as int) =~= rest);
    assert(prefix.is_prefix_of(prefix + rest));
    if let Some(left) = after_prefix(text, prefix) {
        assert(text =~= prefix + left);
    }
}

/// The port of an endpoint is the number behind `tcp:`, of sixteen bits.
pub proof fn ports_stand_behind_their_protocol(port: nat, endpoint: Seq<char>)
    ensures
        tcp_port("tcp:"@ + decimal(port)) == if port <= 65535 {
            Some(port)
        } else {
            None
        },
        !"tcp:"@.is_prefix_of(endpoint) ==> tcp_port(endpoint) is None,
{
    prefixes_are_taken_off("tcp:"@, decimal(port), endpoint);
    decimals_are_read_back(port, 65535);
}

/// The zeros at the end of a text go, and no others.
pub proof fn zeros_at_the_end_go(text: Seq<char>)
    ensures
        trim_zeros(text.push('\0')) == trim_zeros(text),
        text.len() == 0 || text.last() != '\0' ==> trim_zeros(text) == text,
{
    assert(text.push('\0').drop_last() =~= text);
}

/// What is wrong with a number is told: that there is none, that the digits in front
/// are too many, or that something is no digit.
pub proof fn wrong_numbers_are_told(text: Seq<char>, radix: nat, max: nat)
    requires
        radix == 8 || radix == 10 || radix == 16,
    ensures
        unsigned_complaint(seq![], radix, max) == "cannot parse integer from empty string"@,
        text.len() > 0 && text[0] != '+' && digits_value(text, radix) is Some && digits_value(
            text,
            radix,
        )->0 > max ==> unsigned_complaint(text, radix, max)
            == "number too large to fit in target type"@,
        text.len() > 0 && text[0] != '+' && (forall|n: int|
            0 <= n <= text.len() && (#[trigger] digits_value(text.take(n), radix)) is Some
                ==> digits_value(text.take(n), radix)->0 <= max) ==> unsigned_complaint(
            text,
            radix,
            max,
        ) == "invalid digit found in string"@,
{
    assert(text.take(text.len() as int) =~= text);
}

/// What is wrong with a number that may be negative is told in the same words, and a
/// negative one may also be too small.
pub proof fn wrong_signed_numbers_are_told(text: Seq<char>)
    ensures
        text.len() == 0 || text[0] != '-' ==> signed_complaint(text) == unsigned_complaint(
            text,
            10,
            0x7fff_ffff_ffff_ffff,
        ),
        digits_value(text, 10) is Some && digits_value(text, 10)->0 > 0x8000_0000_0000_0000
            ==> signed_complaint(seq!['-'] + text) == "number too small to fit in target type"@,
        (forall|n: int|
            0 <= n <= text.len() && (#[trigger] digits_value(text.take(n), 10)) is Some
                ==> digits_value(text.take(n), 10)->0 <= 0x8000_0000_0000_0000)
            ==> signed_complaint(seq!['-'] + text) == "invalid digit found in string"@,
{
    assert((seq!['-'] + text).drop_first() =~= text);
    assert(text.take(text.len() as int) =~= text);
}

} // verus!
