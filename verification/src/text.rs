//! Character-level text handling: whitespace, trimming, words and lines,
//! specified over `Seq<char>`.

use vstd::prelude::*;

verus! {

/// The code points that carry the Unicode `White_Space` property.
pub open spec fn is_whitespace(c: char) -> bool {
    let u = c as u32;
    ||| 0x09 <= u <= 0x0D
    ||| u == 0x20
    ||| u == 0x85
    ||| u == 0xA0
    ||| u == 0x1680
    ||| 0x2000 <= u <= 0x200A
    ||| u == 0x2028
    ||| u == 0x2029
    ||| u == 0x202F
    ||| u == 0x205F
    ||| u == 0x3000
}

/// Tells whether `c` is Unicode whitespace.
pub fn char_is_whitespace(c: char) -> (b: bool)
    ensures
        b == is_whitespace(c),
{
    let u: u32 = c as u32;
    (0x09 <= u && u <= 0x0D) || u == 0x20 || u == 0x85 || u == 0xA0 || u == 0x1680 || (0x2000 <= u
        && u <= 0x200A) || u == 0x2028 || u == 0x2029 || u == 0x202F || u == 0x205F || u == 0x3000
}

/// The characters of `s`, in order.
pub fn chars_of(s: &str) -> (v: Vec<char>)
    ensures
        v@ == s@,
{
    let mut v: Vec<char> = Vec::new();
    for c in it: s.chars()
        invariant
            v@ == it.seq().take(it.index() as int),
            it.seq() == s@,
    {
        v.push(c);
    }
    v
}

/// The character that writes the digit `d`.
pub open spec fn digit_char(d: int) -> char {
    if d == 0 {
        '0'
    } else if d == 1 {
        '1'
    } else if d == 2 {
        '2'
    } else if d == 3 {
        '3'
    } else if d == 4 {
        '4'
    } else if d == 5 {
        '5'
    } else if d == 6 {
        '6'
    } else if d == 7 {
        '7'
    } else if d == 8 {
        '8'
    } else {
        '9'
    }
}

/// The decimal numeral of `n`, without sign or leading zeros.
pub open spec fn decimal(n: nat) -> Seq<char>
    decreases n,
{
    if n < 10 {
        seq![digit_char(n as int)]
    } else {
        decimal(n / 10).push(digit_char((n % 10) as int))
    }
}

/// The decimal numeral of `n`, with a leading `-` where `n` is negative.
pub open spec fn signed_decimal(n: int) -> Seq<char> {
    if n < 0 {
        seq!['-'] + decimal((-n) as nat)
    } else {
        decimal(n as nat)
    }
}

/// The one-character text of the digit `d`.
fn digit_str(d: u64) -> (r: &'static str)
    requires
        d < 10,
    ensures
        r@ == seq![digit_char(d as int)],
{
    proof {
        reveal_strlit("0");
        reveal_strlit("1");
        reveal_strlit("2");
        reveal_strlit("3");
        reveal_strlit("4");
        reveal_strlit("5");
        reveal_strlit("6");
        reveal_strlit("7");
        reveal_strlit("8");
        reveal_strlit("9");
    }
    let r = if d == 0 {
        "0"
    } else if d == 1 {
        "1"
    } else if d == 2 {
        "2"
    } else if d == 3 {
        "3"
    } else if d == 4 {
        "4"
    } else if d == 5 {
        "5"
    } else if d == 6 {
        "6"
    } else if d == 7 {
        "7"
    } else if d == 8 {
        "8"
    } else {
        "9"
    };
    assert(r@ =~= seq![digit_char(d as int)]);
    r
}

/// Writes `n` in decimal.
pub fn decimal_string(n: u64) -> (s: String)
    ensures
        s@ == decimal(n as nat),
    decreases n,
{
    if n < 10 {
        digit_str(n).to_string()
    } else {
        let mut s = decimal_string(n / 10);
        s.append(digit_str(n % 10));
        s
    }
}

/// Writes `n` in decimal, with a leading `-` where it is negative.
pub fn signed_decimal_string(n: i32) -> (s: String)
    ensures
        s@ == signed_decimal(n as int),
{
    if n < 0 {
        let magnitude: u64 = (-(n as i64)) as u64;
        let mut s = "-".to_string();
        let digits = decimal_string(magnitude);
        s.append(digits.as_str());
        proof {
            reveal_strlit("-");
            assert(s@ =~= seq!['-'] + decimal((-(n as int)) as nat));
        }
        s
    } else {
        decimal_string(n as u64)
    }
}

/// The path of `name` under the directory `base`. An absolute `name`
/// stands for itself; otherwise the two are written one after the
/// other, with a `/` between them unless `base` is empty or ends in one.
pub open spec fn path_join(base: Seq<char>, name: Seq<char>) -> Seq<char> {
    if name.len() > 0 && name[0] == '/' {
        name
    } else if base.len() == 0 || base.last() == '/' {
        base + name
    } else {
        base + seq!['/'] + name
    }
}

/// Composes the path of `name` under the directory `base`.
pub fn join_path(base: &str, name: &str) -> (path: String)
    ensures
        path@ == path_join(base@, name@),
{
    let name_chars = chars_of(name);
    if name_chars.len() > 0 && name_chars[0] == '/' {
        return name.to_string();
    }
    let base_chars = chars_of(base);
    let mut path = base.to_string();
    if base_chars.len() > 0 && base_chars[base_chars.len() - 1] != '/' {
        proof {
            reveal_strlit("/");
            assert("/"@ =~= seq!['/']);
        }
        path.append("/");
    }
    path.append(name);
    path
}

/// A stretch of a text: the characters from `start` up to `end`.
#[derive(Clone, Copy, Debug, PartialEq, Eq, Structural)]
pub struct Span {
    pub start: usize,
    pub end: usize,
}

impl Span {
    /// Whether the span lies within a text of `len` characters.
    pub open spec fn within(self, len: nat) -> bool {
        self.start <= self.end <= len
    }

    /// The characters of `s` that the span covers.
    pub open spec fn of(self, s: Seq<char>) -> Seq<char> {
        s.subrange(self.start as int, self.end as int)
    }
}

/// The characters of `s` under a span that may be there.
pub open spec fn span_text(s: Seq<char>, span: Option<Span>) -> Option<Seq<char>> {
    match span {
        Some(span) => Some(span.of(s)),
        None => None,
    }
}

/// The stretches of `s` that `spans` cover, in order.
pub open spec fn spans_of(s: Seq<char>, spans: Seq<Span>) -> Seq<Seq<char>> {
    Seq::new(spans.len(), |i: int| spans[i].of(s))
}

/// Whether all of `spans` lie within a text of `len` characters.
pub open spec fn spans_within(spans: Seq<Span>, len: nat) -> bool {
    forall|i: int| 0 <= i < spans.len() ==> (#[trigger] spans[i]).within(len)
}

/// `line` without the carriage return at its end, if it has one.
pub open spec fn strip_carriage_return(line: Seq<char>) -> Seq<char> {
    if line.len() > 0 && line.last() == '\r' {
        line.drop_last()
    } else {
        line
    }
}

/// The lines of `s` from `pos` on, where the line that `pos` is in
/// began at `start`.
pub open spec fn lines_from(s: Seq<char>, start: int, pos: int) -> Seq<Seq<char>>
    decreases s.len() - pos,
{
    if pos >= s.len() {
        if start < s.len() {
            seq![s.subrange(start, s.len() as int)]
        } else {
            Seq::empty()
        }
    } else if s[pos] == '\n' {
        seq![strip_carriage_return(s.subrange(start, pos))] + lines_from(s, pos + 1, pos + 1)
    } else {
        lines_from(s, start, pos + 1)
    }
}

/// The lines of `s`. A line ends at a line feed, or at a carriage return
/// followed by one; neither belongs to the line. The last line needs no
/// line ending, and a text that ends in one has no empty line after it.
pub open spec fn lines(s: Seq<char>) -> Seq<Seq<char>> {
    lines_from(s, 0, 0)
}

/// Finds the lines of a text.
pub fn line_spans(chars: &Vec<char>) -> (spans: Vec<Span>)
    ensures
        spans_within(spans@, chars@.len()),
        spans_of(chars@, spans@) == lines(chars@),
{
    let mut spans: Vec<Span> = Vec::new();
    let mut start: usize = 0;
    let mut pos: usize = 0;
    while pos < chars.len()
        invariant
            start <= pos <= chars@.len(),
            spans_within(spans@, chars@.len()),
            lines(chars@) == spans_of(chars@, spans@) + lines_from(chars@, start as int, pos as int),
        decreases chars@.len() - pos,
    {
        if chars[pos] == '\n' {
            let end: usize = if pos > start && chars[pos - 1] == '\r' {
                pos - 1
            } else {
                pos
            };
            let span = Span { start, end };
            proof {
                let line = chars@.subrange(start as int, pos as int);
                assert(span.of(chars@) =~= strip_carriage_return(line));
                assert(spans_of(chars@, spans@.push(span)) =~= spans_of(chars@, spans@) + seq![
                    span.of(chars@),
                ]);
                assert(lines(chars@) =~= spans_of(chars@, spans@.push(span)) + lines_from(
                    chars@,
                    pos + 1,
                    pos + 1,
                ));
            }
            spans.push(span);
            start = pos + 1;
        }
        pos += 1;
    }
    if start < chars.len() {
        let span = Span { start, end: chars.len() };
        proof {
            assert(spans_of(chars@, spans@.push(span)) =~= spans_of(chars@, spans@) + seq![
                span.of(chars@),
            ]);
        }
        spans.push(span);
    }
    assert(spans_of(chars@, spans@) =~= lines(chars@));
    spans
}

/// The words of `s` from `pos` on, where the characters from `start`
/// up to `pos` are the beginning of a word, or `start` is `pos`.
pub open spec fn words_from(s: Seq<char>, start: int, pos: int) -> Seq<Seq<char>>
    decreases s.len() - pos,
{
    let word = if start < pos {
        seq![s.subrange(start, pos)]
    } else {
        Seq::empty()
    };
    if pos >= s.len() {
        word
    } else if is_whitespace(s[pos]) {
        word + words_from(s, pos + 1, pos + 1)
    } else {
        words_from(s, start, pos + 1)
    }
}

/// The words of `s`: its longest stretches without whitespace, in
/// order. No word is empty, whatever whitespace stands around it.
pub open spec fn split_whitespace(s: Seq<char>) -> Seq<Seq<char>> {
    words_from(s, 0, 0)
}

/// Finds the words of a text.
pub fn word_spans(chars: &Vec<char>) -> (spans: Vec<Span>)
    ensures
        spans_within(spans@, chars@.len()),
        spans_of(chars@, spans@) == split_whitespace(chars@),
{
    let mut spans: Vec<Span> = Vec::new();
    let mut start: usize = 0;
    let mut pos: usize = 0;
    while pos < chars.len()
        invariant
            start <= pos <= chars@.len(),
            spans_within(spans@, chars@.len()),
            split_whitespace(chars@) == spans_of(chars@, spans@) + words_from(
                chars@,
                start as int,
                pos as int,
            ),
        decreases chars@.len() - pos,
    {
        if char_is_whitespace(chars[pos]) {
            if start < pos {
                let span = Span { start, end: pos };
                proof {
                    assert(spans_of(chars@, spans@.push(span)) =~= spans_of(chars@, spans@) + seq![
                        span.of(chars@),
                    ]);
                    assert(split_whitespace(chars@) =~= spans_of(chars@, spans@.push(span))
                        + words_from(chars@, pos + 1, pos + 1));
                }
                spans.push(span);
            } else {
                assert(split_whitespace(chars@) =~= spans_of(chars@, spans@) + words_from(
                    chars@,
                    pos + 1,
                    pos + 1,
                ));
            }
            start = pos + 1;
        }
        pos += 1;
    }
    if start < pos {
        let span = Span { start, end: pos };
        proof {
            assert(spans_of(chars@, spans@.push(span)) =~= spans_of(chars@, spans@) + seq![
                span.of(chars@),
            ]);
        }
        spans.push(span);
    }
    assert(spans_of(chars@, spans@) =~= split_whitespace(chars@));
    spans
}

/// The index of the first `c` in `s` at or after `from`, or the length
/// of `s` where there is none.
pub open spec fn find_char(s: Seq<char>, c: char, from: int) -> int
    decreases s.len() - from,
{
    if from >= s.len() {
        s.len() as int
    } else if s[from] == c {
        from
    } else {
        find_char(s, c, from + 1)
    }
}

/// What `find_char` finds is the first occurrence.
pub proof fn lemma_find_char(s: Seq<char>, c: char, from: int)
    requires
        0 <= from <= s.len(),
    ensures
        from <= find_char(s, c, from) <= s.len(),
        find_char(s, c, from) < s.len() ==> s[find_char(s, c, from)] == c,
        forall|i: int| from <= i < find_char(s, c, from) ==> s[i] != c,
    decreases s.len() - from,
{
    if from < s.len() && s[from] != c {
        lemma_find_char(s, c, from + 1);
    }
}

/// The two parts of `s` around its first `c`, or `None` where `s` holds
/// no `c`.
pub open spec fn split_once(s: Seq<char>, c: char) -> Option<(Seq<char>, Seq<char>)> {
    let at = find_char(s, c, 0);
    if at < s.len() {
        Some((s.take(at), s.skip(at + 1)))
    } else {
        None
    }
}

/// What is left of `s` behind `prefix`, or `None` where `s` does not
/// begin with it.
pub open spec fn strip_prefix(s: Seq<char>, prefix: Seq<char>) -> Option<Seq<char>> {
    if prefix.len() <= s.len() && s.take(prefix.len() as int) == prefix {
        Some(s.skip(prefix.len() as int))
    } else {
        None
    }
}

/// Tells whether the stretch `span` of the text begins with `prefix`.
pub fn span_starts_with(chars: &Vec<char>, span: Span, prefix: &Vec<char>) -> (b: bool)
    requires
        span.within(chars@.len()),
    ensures
        b == strip_prefix(span.of(chars@), prefix@).is_some(),
        b ==> span.start + prefix@.len() <= span.end,
        b ==> strip_prefix(span.of(chars@), prefix@) == Some(
            chars@.subrange(span.start + prefix@.len(), span.end as int),
        ),
{
    if prefix.len() > span.end - span.start {
        return false;
    }
    let mut i: usize = 0;
    while i < prefix.len()
        invariant
            i <= prefix@.len(),
            span.within(chars@.len()),
            prefix@.len() <= span.end - span.start,
            forall|j: int| 0 <= j < i ==> chars@[span.start + j] == prefix@[j],
        decreases prefix@.len() - i,
    {
        if chars[span.start + i] != prefix[i] {
            proof {
                let line = span.of(chars@);
                assert(line.take(prefix@.len() as int)[i as int] != prefix@[i as int]);
            }
            return false;
        }
        i += 1;
    }
    proof {
        let line = span.of(chars@);
        assert(line.take(prefix@.len() as int) =~= prefix@);
        assert(line.skip(prefix@.len() as int) =~= chars@.subrange(
            span.start + prefix@.len(),
            span.end as int,
        ));
    }
    true
}

/// Tells whether the stretch `span` of the text reads `word`.
pub fn span_equals(chars: &Vec<char>, span: Span, word: &Vec<char>) -> (b: bool)
    requires
        span.within(chars@.len()),
    ensures
        b == (span.of(chars@) == word@),
{
    if word.len() != span.end - span.start {
        return false;
    }
    let mut i: usize = 0;
    while i < word.len()
        invariant
            i <= word@.len(),
            span.within(chars@.len()),
            word@.len() == span.end - span.start,
            forall|j: int| 0 <= j < i ==> chars@[span.start + j] == word@[j],
        decreases word@.len() - i,
    {
        if chars[span.start + i] != word[i] {
            assert(span.of(chars@)[i as int] != word@[i as int]);
            return false;
        }
        i += 1;
    }
    assert(span.of(chars@) =~= word@);
    true
}

/// Finds the first `c` in the stretch `span` of the text: its index in
/// the text, or the end of the span where the stretch holds none.
pub fn find_in_span(chars: &Vec<char>, span: Span, c: char) -> (at: usize)
    requires
        span.within(chars@.len()),
    ensures
        at == span.start + find_char(span.of(chars@), c, 0),
        span.start <= at <= span.end,
{
    let ghost word = span.of(chars@);
    let mut at: usize = span.start;
    while at < span.end && chars[at] != c
        invariant
            span.within(chars@.len()),
            span.start <= at <= span.end,
            word == span.of(chars@),
            find_char(word, c, 0) == find_char(word, c, at - span.start),
        decreases span.end - at,
    {
        assert(word[at - span.start] == chars@[at as int]);
        at += 1;
    }
    proof {
        if at < span.end {
            assert(word[at - span.start] == chars@[at as int]);
        }
    }
    at
}

/// The index of the first character of `s` at or after `from` that is
/// no whitespace, or the length of `s` where only whitespace is left.
pub open spec fn skip_whitespace(s: Seq<char>, from: int) -> int
    decreases s.len() - from,
{
    if from >= s.len() {
        s.len() as int
    } else if !is_whitespace(s[from]) {
        from
    } else {
        skip_whitespace(s, from + 1)
    }
}

/// The index behind the last character of `s` before `to` that is no
/// whitespace, or zero where only whitespace stands before `to`.
pub open spec fn skip_whitespace_back(s: Seq<char>, to: int) -> int
    decreases to,
{
    if to <= 0 {
        0
    } else if !is_whitespace(s[to - 1]) {
        to
    } else {
        skip_whitespace_back(s, to - 1)
    }
}

/// `s` without the whitespace at its beginning and at its end.
pub open spec fn trim(s: Seq<char>) -> Seq<char> {
    let from = skip_whitespace(s, 0);
    let to = skip_whitespace_back(s, s.len() as int);
    if from < to {
        s.subrange(from, to)
    } else {
        Seq::empty()
    }
}

/// What `trim` leaves is the stretch of `s` between its first and its
/// last character that is no whitespace: nothing but whitespace stands
/// before or behind it, and it neither begins nor ends with any.
pub proof fn lemma_trim(s: Seq<char>)
    ensures
        ({
            let from = skip_whitespace(s, 0);
            let to = skip_whitespace_back(s, s.len() as int);
            &&& 0 <= from <= s.len()
            &&& 0 <= to <= s.len()
            &&& forall|i: int| 0 <= i < from ==> is_whitespace(#[trigger] s[i])
            &&& forall|i: int| to <= i < s.len() ==> is_whitespace(#[trigger] s[i])
            &&& from < s.len() ==> !is_whitespace(s[from]) && from < to
            &&& 0 < to ==> !is_whitespace(s[to - 1]) && from < to
            &&& from == s.len() <==> to == 0
        }),
        trim(s).len() > 0 ==> !is_whitespace(trim(s).first()) && !is_whitespace(trim(s).last()),
{
    lemma_skip_whitespace(s, 0);
    lemma_skip_whitespace_back(s, s.len() as int);
    let from = skip_whitespace(s, 0);
    let to = skip_whitespace_back(s, s.len() as int);
    if from < s.len() && to <= from {
        assert(is_whitespace(s[from]));
    }
    if 0 < to && to <= from {
        assert(is_whitespace(s[to - 1]));
    }
}

/// `skip_whitespace` passes over whitespace only, and stops at the
/// first character that is none.
pub proof fn lemma_skip_whitespace(s: Seq<char>, from: int)
    requires
        0 <= from <= s.len(),
    ensures
        from <= skip_whitespace(s, from) <= s.len(),
        forall|i: int| from <= i < skip_whitespace(s, from) ==> is_whitespace(#[trigger] s[i]),
        skip_whitespace(s, from) < s.len() ==> !is_whitespace(s[skip_whitespace(s, from)]),
    decreases s.len() - from,
{
    if from < s.len() && is_whitespace(s[from]) {
        lemma_skip_whitespace(s, from + 1);
    }
}

/// `skip_whitespace_back` passes over whitespace only, and stops behind
/// the last character that is none.
pub proof fn lemma_skip_whitespace_back(s: Seq<char>, to: int)
    requires
        0 <= to <= s.len(),
    ensures
        0 <= skip_whitespace_back(s, to) <= to,
        forall|i: int| skip_whitespace_back(s, to) <= i < to ==> is_whitespace(#[trigger] s[i]),
        skip_whitespace_back(s, to) > 0 ==> !is_whitespace(s[skip_whitespace_back(s, to) - 1]),
    decreases to,
{
    if to > 0 && is_whitespace(s[to - 1]) {
        lemma_skip_whitespace_back(s, to - 1);
    }
}

/// Copies `s` without the whitespace at its beginning and at its end.
pub fn trimmed(s: &str) -> (r: String)
    ensures
        r@ == trim(s@),
{
    let chars = chars_of(s);
    let mut from: usize = 0;
    while from < chars.len() && char_is_whitespace(chars[from])
        invariant
            from <= chars@.len(),
            skip_whitespace(chars@, 0) == skip_whitespace(chars@, from as int),
        decreases chars@.len() - from,
    {
        from += 1;
    }
    let mut to: usize = chars.len();
    while to > 0 && char_is_whitespace(chars[to - 1])
        invariant
            to <= chars@.len(),
            skip_whitespace_back(chars@, chars@.len() as int) == skip_whitespace_back(
                chars@,
                to as int,
            ),
        decreases to,
    {
        to -= 1;
    }
    if from < to {
        s.substring_char(from, to).to_string()
    } else {
        String::new()
    }
}

/// `s` without `prefix` at its beginning, however often it stands there.
pub open spec fn strip_prefixes(s: Seq<char>, prefix: Seq<char>) -> Seq<char>
    decreases s.len(),
{
    if prefix.len() > 0 && strip_prefix(s, prefix) is Some {
        strip_prefixes(s.skip(prefix.len() as int), prefix)
    } else {
        s
    }
}

/// Copies `s` without `prefix` at its beginning, however often it
/// stands there.
pub fn without_prefixes(s: &str, prefix: &str) -> (r: String)
    ensures
        r@ == strip_prefixes(s@, prefix@),
{
    let chars = chars_of(s);
    let word = chars_of(prefix);
    let mut from: usize = 0;
    assert(s@.skip(0) =~= s@);
    if word.len() > 0 {
        let mut more = span_starts_with(&chars, Span { start: 0, end: chars.len() }, &word);
        assert(s@ =~= (Span { start: 0, end: chars.len() }).of(chars@));
        while more
            invariant
                from <= chars@.len(),
                word@.len() > 0,
                word@ == prefix@,
                chars@ == s@,
                more == strip_prefix(s@.skip(from as int), prefix@).is_some(),
                more ==> from + word@.len() <= chars@.len(),
                chars@.len() <= usize::MAX,
                strip_prefixes(s@, prefix@) == strip_prefixes(s@.skip(from as int), prefix@),
            decreases chars@.len() - from,
        {
            proof {
                let rest = s@.skip(from as int);
                assert(rest.skip(word@.len() as int) =~= s@.skip(from + word@.len()));
            }
            from += word.len();
            let span = Span { start: from, end: chars.len() };
            assert(s@.skip(from as int) =~= span.of(chars@));
            more = span_starts_with(&chars, span, &word);
        }
    }
    proof {
        assert(s@.skip(from as int) =~= s@.subrange(from as int, s@.len() as int));
    }
    s.substring_char(from, chars.len()).to_string()
}

/// Whether `word` is not empty and holds no whitespace.
pub open spec fn is_word(word: Seq<char>) -> bool {
    &&& word.len() > 0
    &&& forall|j: int| 0 <= j < word.len() ==> !is_whitespace(#[trigger] word[j])
}

/// Every stretch that `words_from` gives is a word.
proof fn lemma_words_from(s: Seq<char>, start: int, pos: int)
    requires
        0 <= start <= pos <= s.len(),
        forall|k: int| start <= k < pos ==> !is_whitespace(#[trigger] s[k]),
    ensures
        forall|i: int|
            0 <= i < words_from(s, start, pos).len() ==> is_word(
                #[trigger] words_from(s, start, pos)[i],
            ),
    decreases s.len() - pos,
{
    let word = if start < pos {
        seq![s.subrange(start, pos)]
    } else {
        Seq::empty()
    };
    if start < pos {
        assert(is_word(s.subrange(start, pos)));
    }
    if pos < s.len() {
        if is_whitespace(s[pos]) {
            lemma_words_from(s, pos + 1, pos + 1);
            let rest = words_from(s, pos + 1, pos + 1);
            assert(words_from(s, start, pos) == word + rest);
            assert forall|i: int| 0 <= i < (word + rest).len() implies is_word(
                #[trigger] (word + rest)[i],
            ) by {
                if i >= word.len() {
                    assert((word + rest)[i] == rest[i - word.len()]);
                } else {
                    assert((word + rest)[i] == s.subrange(start, pos));
                }
            }
        } else {
            lemma_words_from(s, start, pos + 1);
            assert(words_from(s, start, pos) == words_from(s, start, pos + 1));
        }
    } else {
        assert(words_from(s, start, pos) == word);
        assert forall|i: int| 0 <= i < word.len() implies is_word(#[trigger] word[i]) by {
            assert(word[i] == s.subrange(start, pos));
        }
    }
}

/// The words of a text are words: none is empty, and none holds
/// whitespace.
pub proof fn lemma_words_are_words(s: Seq<char>)
    ensures
        forall|i: int|
            0 <= i < split_whitespace(s).len() ==> is_word(#[trigger] split_whitespace(s)[i]),
{
    lemma_words_from(s, 0, 0);
}

/// Whether `c` is one of the ten digits.
pub open spec fn is_digit(c: char) -> bool {
    '0' <= c <= '9'
}

/// A decimal numeral is one digit or more, and nothing else.
pub proof fn lemma_decimal_is_digits(n: nat)
    ensures
        decimal(n).len() >= 1,
        forall|i: int| 0 <= i < decimal(n).len() ==> is_digit(#[trigger] decimal(n)[i]),
    decreases n,
{
    if n >= 10 {
        lemma_decimal_is_digits(n / 10);
    }
}

/// `split_once` cuts at the first `c`: the part before it holds no `c`,
/// and the two parts with a `c` between them are the text.
pub proof fn lemma_split_once(s: Seq<char>, c: char)
    ensures
        match split_once(s, c) {
            Some((head, tail)) => s == head + seq![c] + tail && !head.contains(c),
            None => !s.contains(c),
        },
{
    lemma_find_char(s, c, 0);
    let at = find_char(s, c, 0);
    if at < s.len() {
        assert(s =~= s.take(at) + seq![c] + s.skip(at + 1));
    }
}

/// What `strip_prefixes` leaves does not begin with the prefix.
pub proof fn lemma_strip_prefixes(s: Seq<char>, prefix: Seq<char>)
    requires
        prefix.len() > 0,
    ensures
        strip_prefix(strip_prefixes(s, prefix), prefix) is None,
    decreases s.len(),
{
    if strip_prefix(s, prefix) is Some {
        lemma_strip_prefixes(s.skip(prefix.len() as int), prefix);
    }
}

/// No line holds a line feed.
proof fn lemma_lines_from(s: Seq<char>, start: int, pos: int)
    requires
        0 <= start <= pos <= s.len(),
        forall|k: int| start <= k < pos ==> #[trigger] s[k] != '\n',
    ensures
        forall|i: int|
            0 <= i < lines_from(s, start, pos).len() ==> !(#[trigger] lines_from(
                s,
                start,
                pos,
            )[i]).contains('\n'),
    decreases s.len() - pos,
{
    if pos >= s.len() {
        if start < s.len() {
            let line = s.subrange(start, s.len() as int);
            assert(lines_from(s, start, pos) == seq![line]);
            assert forall|i: int| 0 <= i < 1 implies !(#[trigger] seq![line][i]).contains(
                '\n',
            ) by {
                assert(seq![line][i] == line);
            }
        }
    } else if s[pos] == '\n' {
        let line = strip_carriage_return(s.subrange(start, pos));
        let rest = lines_from(s, pos + 1, pos + 1);
        lemma_lines_from(s, pos + 1, pos + 1);
        assert(lines_from(s, start, pos) == seq![line] + rest);
        assert forall|k: int| 0 <= k < line.len() implies line[k] != '\n' by {
            assert(line[k] == s[start + k]);
        }
        assert forall|i: int| 0 <= i < (seq![line] + rest).len() implies !(#[trigger] (seq![line]
            + rest)[i]).contains('\n') by {
            if i == 0 {
                assert((seq![line] + rest)[i] == line);
            } else {
                assert((seq![line] + rest)[i] == rest[i - 1]);
            }
        }
    } else {
        lemma_lines_from(s, start, pos + 1);
        assert(lines_from(s, start, pos) == lines_from(s, start, pos + 1));
    }
}

/// The lines of a text hold no line feed.
pub proof fn lemma_lines_hold_no_line_feed(s: Seq<char>)
    ensures
        forall|i: int| 0 <= i < lines(s).len() ==> !(#[trigger] lines(s)[i]).contains('\n'),
{
    lemma_lines_from(s, 0, 0);
}

} // verus!
