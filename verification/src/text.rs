//! Text: decimal numbers, white space, lines and the escapes of XML.
use vstd::prelude::*;

verus! {

/// `String::push` puts one character at the end of the string.
pub assume_specification[ String::push ](s: &mut String, c: char)
    ensures
        final(s)@ == old(s)@.push(c),
;

/// Tells whether two texts hold the same characters.
pub fn same(a: &str, b: &str) -> (r: bool)
    ensures
        r == (a@ == b@),
{
    a.to_owned() == b.to_owned()
}

/// Tells whether a text holds no character.
pub fn is_empty(text: &str) -> (r: bool)
    ensures
        r == (text@.len() == 0),
{
    proof {
        reveal_strlit("");
        assert(text@.len() == 0 ==> text@ =~= ""@);
    }
    same(text, "")
}

/// The characters of a text, in order.
pub fn characters(text: &str) -> (r: Vec<char>)
    ensures
        r@ == text@,
{
    let mut out: Vec<char> = Vec::new();
    for c in it: text.chars()
        invariant
            it.seq() == text@,
            out@ == text@.take(it.index() as int),
    {
        out.push(c);
    }
    out
}

/// The text that a range of characters spells.
pub fn spell(characters: &Vec<char>, from: usize, to: usize) -> (r: String)
    requires
        from <= to <= characters@.len(),
    ensures
        r@ == characters@.subrange(from as int, to as int),
{
    let mut out = String::new();
    let mut i: usize = from;
    while i < to
        invariant
            from <= i <= to <= characters@.len(),
            out@ == characters@.subrange(from as int, i as int),
        decreases to - i,
    {
        out.push(characters[i]);
        i += 1;
        assert(characters@.subrange(from as int, i as int) =~= characters@.subrange(
            from as int,
            i - 1,
        ).push(characters@[i - 1]));
    }
    out
}

/// The decimal digit of a number below ten.
pub open spec fn digit(n: int) -> char {
    (n + 48) as char
}

/// The decimal digits of a natural number, without leading zeros.
pub open spec fn digits(n: nat) -> Seq<char>
    decreases n,
{
    if n < 10 {
        seq![digit(n as int)]
    } else {
        digits(n / 10).push(digit((n % 10) as int))
    }
}

/// The decimal notation of an integer.
pub open spec fn decimal(n: int) -> Seq<char> {
    if n < 0 {
        seq!['-'] + digits((-n) as nat)
    } else {
        digits(n as nat)
    }
}

fn push_digits(out: &mut String, n: u128)
    ensures
        final(out)@ == old(out)@ + digits(n as nat),
    decreases n,
{
    if n >= 10 {
        push_digits(out, n / 10);
    }
    let d: u8 = (n % 10) as u8;
    out.push((d + 48) as char);
}

/// Writes a natural number in decimal notation.
pub fn natural(n: u128) -> (r: String)
    ensures
        r@ == decimal(n as int),
{
    let mut out = String::new();
    push_digits(&mut out, n);
    out
}

/// Writes an integer in decimal notation.
pub fn integer(n: i32) -> (r: String)
    ensures
        r@ == decimal(n as int),
{
    let mut out = String::new();
    if n < 0 {
        out.push('-');
        push_digits(&mut out, (-(n as i64)) as u128);
    } else {
        push_digits(&mut out, n as u128);
    }
    out
}

/// The characters with Unicode's `White_Space` property.
pub open spec fn white_space(c: char) -> bool {
    let code = c as u32;
    ||| 0x09 <= code <= 0x0d
    ||| code == 0x20
    ||| code == 0x85
    ||| code == 0xa0
    ||| code == 0x1680
    ||| 0x2000 <= code <= 0x200a
    ||| code == 0x2028
    ||| code == 0x2029
    ||| code == 0x202f
    ||| code == 0x205f
    ||| code == 0x3000
}

/// Tells whether a character is white space.
pub fn is_white_space(c: char) -> (r: bool)
    ensures
        r == white_space(c),
{
    let code: u32 = c as u32;
    (0x09 <= code && code <= 0x0d) || code == 0x20 || code == 0x85 || code == 0xa0 || code == 0x1680
        || (0x2000 <= code && code <= 0x200a) || code == 0x2028 || code == 0x2029 || code == 0x202f
        || code == 0x205f || code == 0x3000
}

/// Some character of the text is white space.
pub open spec fn has_white_space(text: Seq<char>) -> bool {
    exists|i: int| 0 <= i < text.len() && white_space(#[trigger] text[i])
}

/// Tells whether a text holds white space anywhere.
pub fn contains_white_space(text: &str) -> (r: bool)
    ensures
        r == has_white_space(text@),
{
    let all = characters(text);
    let mut i: usize = 0;
    while i < all.len()
        invariant
            i <= all@.len(),
            all@ == text@,
            forall|j: int| 0 <= j < i ==> !white_space(#[trigger] all@[j]),
        decreases all@.len() - i,
    {
        if is_white_space(all[i]) {
            return true;
        }
        i += 1;
    }
    false
}

/// The text without the white space it starts with.
pub open spec fn trim_start(text: Seq<char>) -> Seq<char>
    decreases text.len(),
{
    if text.len() > 0 && white_space(text[0]) {
        trim_start(text.drop_first())
    } else {
        text
    }
}

/// The text without the white space it ends with.
pub open spec fn trim_end(text: Seq<char>) -> Seq<char>
    decreases text.len(),
{
    if text.len() > 0 && white_space(text.last()) {
        trim_end(text.drop_last())
    } else {
        text
    }
}

/// The text without white space at either end.
pub open spec fn trimmed(text: Seq<char>) -> Seq<char> {
    trim_end(trim_start(text))
}

/// Removes white space from both ends of a text.
pub fn trim(text: &str) -> (r: String)
    ensures
        r@ == trimmed(text@),
{
    let all = characters(text);
    let mut from: usize = 0;
    assert(text@.skip(0) =~= text@);
    while from < all.len() && is_white_space(all[from])
        invariant
            from <= all@.len(),
            all@ == text@,
            trim_start(text@) == trim_start(text@.skip(from as int)),
        decreases all@.len() - from,
    {
        assert(text@.skip(from as int).drop_first() =~= text@.skip(from + 1));
        from += 1;
    }
    let mut to: usize = all.len();
    assert(text@.subrange(from as int, to as int) =~= text@.skip(from as int));
    assert(trim_start(text@) == text@.subrange(from as int, to as int));
    while from < to && is_white_space(all[to - 1])
        invariant
            from <= to <= all@.len(),
            all@ == text@,
            trimmed(text@) == trim_end(text@.subrange(from as int, to as int)),
        decreases to,
    {
        assert(text@.subrange(from as int, to as int).drop_last() =~= text@.subrange(
            from as int,
            to - 1,
        ));
        to -= 1;
    }
    spell(&all, from, to)
}

/// The position of the first line feed, or the length where there is none.
pub open spec fn line_end(text: Seq<char>) -> int
    decreases text.len(),
{
    if text.len() == 0 || text[0] == '\n' {
        0
    } else {
        1 + line_end(text.drop_first())
    }
}

/// The line without a carriage return at its end.
pub open spec fn without_return(line: Seq<char>) -> Seq<char> {
    if line.len() > 0 && line.last() == '\r' {
        line.drop_last()
    } else {
        line
    }
}

/// The lines of a text. A line ends in a line feed, which may follow a
/// carriage return; the last line needs no end, and keeps a carriage return
/// that no line feed follows.
pub open spec fn lines_of(text: Seq<char>) -> Seq<Seq<char>>
    decreases text.len(),
    via lines_of_decreases
{
    let end = line_end(text);
    if text.len() == 0 {
        seq![]
    } else if end >= text.len() {
        seq![text]
    } else {
        seq![without_return(text.take(end))] + lines_of(text.skip(end + 1))
    }
}

#[via_fn]
proof fn lines_of_decreases(text: Seq<char>) {
    lemma_line_end(text);
}

proof fn lemma_line_end(text: Seq<char>)
    ensures
        0 <= line_end(text) <= text.len(),
        line_end(text) < text.len() ==> text[line_end(text)] == '\n',
        forall|i: int| 0 <= i < line_end(text) ==> text[i] != '\n',
    decreases text.len(),
{
    if text.len() > 0 && text[0] != '\n' {
        lemma_line_end(text.drop_first());
        assert forall|i: int| 0 <= i < line_end(text) implies text[i] != '\n' by {
            if i > 0 {
                assert(text.drop_first()[i - 1] != '\n');
            }
        }
    }
}

/// A text whose first line feed stands at `end` has its first line there.
proof fn lemma_first_line_feed(text: Seq<char>, end: int)
    requires
        0 <= end <= text.len(),
        end < text.len() ==> text[end] == '\n',
        forall|i: int| 0 <= i < end ==> text[i] != '\n',
    ensures
        line_end(text) == end,
{
    lemma_line_end(text);
    let found = line_end(text);
    if found < end {
        assert(text[found] != '\n');
    }
    if end < found {
        assert(text[end] != '\n');
    }
}

/// The texts that a list of strings spells.
pub open spec fn texts(list: Seq<String>) -> Seq<Seq<char>> {
    Seq::new(list.len(), |i: int| list[i]@)
}

/// Splits a text into its lines.
pub fn lines(text: &str) -> (r: Vec<String>)
    ensures
        texts(r@) == lines_of(text@),
{
    let all = characters(text);
    let mut out: Vec<String> = Vec::new();
    let mut from: usize = 0;
    let mut i: usize = 0;
    assert(text@.skip(0) =~= text@);
    assert(texts(out@) + lines_of(text@) =~= lines_of(text@));
    while i < all.len()
        invariant
            from <= i <= all@.len(),
            all@ == text@,
            forall|j: int| from <= j < i ==> all@[j] != '\n',
            lines_of(text@) == texts(out@) + lines_of(text@.skip(from as int)),
        decreases all@.len() - i,
    {
        if all[i] == '\n' {
            let ghost rest = text@.skip(from as int);
            let ghost before = out@;
            proof {
                lemma_first_line_feed(rest, i - from);
                assert(rest.take(i - from) =~= text@.subrange(from as int, i as int));
                assert(rest.skip(i - from + 1) =~= text@.skip(i + 1));
            }
            let to: usize = if from < i && all[i - 1] == '\r' { i - 1 } else { i };
            let line = spell(&all, from, to);
            assert(line@ =~= without_return(rest.take(i - from)));
            out.push(line);
            assert(texts(out@) =~= texts(before).push(line@));
            assert(texts(out@) + lines_of(text@.skip(i + 1)) =~= texts(before) + (seq![line@]
                + lines_of(text@.skip(i + 1))));
            from = i + 1;
        }
        i += 1;
    }
    let ghost rest = text@.skip(from as int);
    if from < all.len() {
        let ghost before = out@;
        proof {
            lemma_first_line_feed(rest, rest.len() as int);
            assert(rest =~= text@.subrange(from as int, all@.len() as int));
        }
        let line = spell(&all, from, all.len());
        out.push(line);
        assert(texts(out@) =~= texts(before) + seq![rest]);
    } else {
        assert(lines_of(rest) =~= seq![]);
        assert(texts(out@) + lines_of(rest) =~= texts(out@));
    }
    out
}

/// What stands for one character in the text of an XML document.
pub open spec fn escape(c: char) -> Seq<char> {
    if c == '&' {
        "&amp;"@
    } else if c == '<' {
        "&lt;"@
    } else if c == '>' {
        "&gt;"@
    } else {
        seq![c]
    }
}

/// The text with each ampersand and angle bracket replaced by its entity.
pub open spec fn escaped(text: Seq<char>) -> Seq<char>
    decreases text.len(),
{
    if text.len() == 0 {
        seq![]
    } else {
        escape(text[0]) + escaped(text.drop_first())
    }
}

/// Escapes a text for use inside an XML document.
pub fn xml(value: &str) -> (r: String)
    ensures
        r@ == escaped(value@),
{
    let all = characters(value);
    let mut out = String::new();
    let mut i: usize = 0;
    assert(value@.skip(0) =~= value@);
    assert(out@ + escaped(value@) =~= escaped(value@));
    while i < all.len()
        invariant
            i <= all@.len(),
            all@ == value@,
            escaped(value@) == out@ + escaped(value@.skip(i as int)),
        decreases all@.len() - i,
    {
        let ghost rest = value@.skip(i as int);
        let ghost before = out@;
        assert(rest.drop_first() =~= value@.skip(i + 1));
        let c = all[i];
        if c == '&' {
            out.append("&amp;");
        } else if c == '<' {
            out.append("&lt;");
        } else if c == '>' {
            out.append("&gt;");
        } else {
            out.push(c);
            assert(out@ =~= before + seq![c]);
        }
        assert(out@ + escaped(value@.skip(i + 1)) =~= before + (escape(c) + escaped(
            value@.skip(i + 1),
        )));
        i += 1;
    }
    assert(out@ + escaped(value@.skip(i as int)) =~= out@);
    out
}

/// The text has the pattern at its start.
pub open spec fn starts(text: Seq<char>, pattern: Seq<char>) -> bool {
    pattern.len() <= text.len() && text.take(pattern.len() as int) == pattern
}

/// An entity for an ampersand or an angle bracket starts the text.
pub open spec fn starts_entity(text: Seq<char>) -> bool {
    starts(text, "&amp;"@) || starts(text, "&lt;"@) || starts(text, "&gt;"@)
}

/// The text with each entity for an ampersand or an angle bracket replaced by the
/// character that it stands for.
pub open spec fn unescaped(text: Seq<char>) -> Seq<char>
    decreases text.len(),
{
    if text.len() == 0 {
        seq![]
    } else if text.len() >= 5 && starts(text, "&amp;"@) {
        seq!['&'] + unescaped(text.skip(5))
    } else if text.len() >= 4 && starts(text, "&lt;"@) {
        seq!['<'] + unescaped(text.skip(4))
    } else if text.len() >= 4 && starts(text, "&gt;"@) {
        seq!['>'] + unescaped(text.skip(4))
    } else {
        seq![text[0]] + unescaped(text.drop_first())
    }
}

proof fn lemma_entities()
    ensures
        "&amp;"@ == seq!['&', 'a', 'm', 'p', ';'],
        "&lt;"@ == seq!['&', 'l', 't', ';'],
        "&gt;"@ == seq!['&', 'g', 't', ';'],
{
    reveal_strlit("&amp;");
    reveal_strlit("&lt;");
    reveal_strlit("&gt;");
    assert("&amp;"@ =~= seq!['&', 'a', 'm', 'p', ';']);
    assert("&lt;"@ =~= seq!['&', 'l', 't', ';']);
    assert("&gt;"@ =~= seq!['&', 'g', 't', ';']);
}

/// What starts with a pattern has the pattern's characters in front.
proof fn lemma_starts(text: Seq<char>, pattern: Seq<char>, i: int)
    requires
        starts(text, pattern),
        0 <= i < pattern.len(),
    ensures
        text[i] == pattern[i],
{
    assert(text.take(pattern.len() as int)[i] == text[i]);
}

/// Escaping loses nothing: reading an escaped text back gives the text.
pub proof fn law_escaping_can_be_undone(text: Seq<char>)
    ensures
        unescaped(escaped(text)) == text,
    decreases text.len(),
{
    lemma_entities();
    if text.len() > 0 {
        let c = text[0];
        let all = escaped(text);
        let rest = escaped(text.drop_first());
        law_escaping_can_be_undone(text.drop_first());
        assert(all.take(escape(c).len() as int) =~= escape(c));
        assert(all.skip(escape(c).len() as int) =~= rest);
        if starts(all, "&amp;"@) {
            lemma_starts(all, "&amp;"@, 0);
            lemma_starts(all, "&amp;"@, 1);
        }
        if starts(all, "&lt;"@) {
            lemma_starts(all, "&lt;"@, 0);
            lemma_starts(all, "&lt;"@, 1);
        }
        if starts(all, "&gt;"@) {
            lemma_starts(all, "&gt;"@, 0);
        }
        assert(c != '&' && c != '<' && c != '>' ==> all.drop_first() =~= rest);
        assert(text =~= seq![c] + text.drop_first());
    } else {
        assert(text =~= seq![]);
    }
}

/// Texts may be escaped before or after they are put together.
pub proof fn law_escaping_goes_part_by_part(a: Seq<char>, b: Seq<char>)
    ensures
        escaped(a + b) == escaped(a) + escaped(b),
    decreases a.len(),
{
    if a.len() == 0 {
        assert(a + b =~= b);
        assert(escaped(a) + escaped(b) =~= escaped(b));
    } else {
        assert((a + b).drop_first() =~= a.drop_first() + b);
        law_escaping_goes_part_by_part(a.drop_first(), b);
        assert(escaped(a + b) =~= escaped(a) + escaped(b));
    }
}

/// Every ampersand of an escaped text starts an entity.
pub proof fn law_an_ampersand_starts_an_entity(text: Seq<char>, i: int)
    requires
        0 <= i < escaped(text).len(),
        escaped(text)[i] == '&',
    ensures
        starts_entity(escaped(text).skip(i)),
    decreases text.len(),
{
    lemma_entities();
    let head = escape(text[0]);
    let rest = escaped(text.drop_first());
    let all = escaped(text);
    if i >= head.len() {
        assert(all[i] == rest[i - head.len()]);
        law_an_ampersand_starts_an_entity(text.drop_first(), i - head.len());
        assert(all.skip(i) =~= rest.skip(i - head.len()));
    } else {
        assert(all[i] == head[i]);
        assert(i == 0);
        assert(all.skip(0) =~= all);
        assert(all.take(head.len() as int) =~= head);
    }
}

/// An escaped text holds no angle bracket.
pub proof fn law_escaped_text_opens_no_element(text: Seq<char>)
    ensures
        forall|i: int|
            0 <= i < escaped(text).len() ==> #[trigger] escaped(text)[i] != '<' && escaped(text)[i]
                != '>',
    decreases text.len(),
{
    reveal_strlit("&amp;");
    reveal_strlit("&lt;");
    reveal_strlit("&gt;");
    if text.len() > 0 {
        law_escaped_text_opens_no_element(text.drop_first());
        let head = escape(text[0]);
        assert forall|i: int| 0 <= i < escaped(text).len() implies #[trigger] escaped(text)[i] != '<'
            && escaped(text)[i] != '>' by {
            if i >= head.len() {
                assert(escaped(text)[i] == escaped(text.drop_first())[i - head.len()]);
            }
        }
    }
}

/// The number that a series of decimal digits stands for.
pub open spec fn number_of(digits: Seq<char>) -> int
    decreases digits.len(),
{
    if digits.len() == 0 {
        0
    } else {
        10 * number_of(digits.drop_last()) + (digits.last() as int - '0' as int)
    }
}

/// Decimal notation stands for the number, uses digits alone, and starts with a zero
/// only for zero.
pub proof fn law_digits(n: nat)
    ensures
        number_of(digits(n)) == n,
        digits(n).len() > 0,
        forall|i: int| 0 <= i < digits(n).len() ==> '0' <= #[trigger] digits(n)[i] <= '9',
        digits(n)[0] == '0' <==> n == 0,
    decreases n,
{
    if n >= 10 {
        law_digits(n / 10);
        let front = digits(n / 10);
        assert(digits(n).drop_last() =~= front);
        assert(digits(n)[0] == front[0]);
        assert forall|i: int| 0 <= i < digits(n).len() implies '0' <= #[trigger] digits(n)[i]
            <= '9' by {
            if i < front.len() {
                assert(digits(n)[i] == front[i]);
            }
        }
    } else {
        assert(digits(n).drop_last() =~= seq![]);
        reveal_with_fuel(number_of, 2);
    }
}

/// A negative number is written as a hyphen and the digits of its absolute value,
/// and any other as its digits.
pub proof fn law_decimal_notation(n: nat)
    ensures
        decimal(n as int) == digits(n),
        n > 0 ==> decimal(-n) == seq!['-'] + digits(n),
{
}

/// The characters that are white space, one by one.
pub proof fn law_white_space(c: char)
    ensures
        white_space(c) <==> seq![
            '\t', '\n', '\u{b}', '\u{c}', '\r', ' ', '\u{85}', '\u{a0}', '\u{1680}', '\u{2000}',
            '\u{2001}', '\u{2002}', '\u{2003}', '\u{2004}', '\u{2005}', '\u{2006}', '\u{2007}',
            '\u{2008}', '\u{2009}', '\u{200a}', '\u{2028}', '\u{2029}', '\u{202f}', '\u{205f}',
            '\u{3000}',
        ].contains(c),
{
    let all = seq![
        '\t', '\n', '\u{b}', '\u{c}', '\r', ' ', '\u{85}', '\u{a0}', '\u{1680}', '\u{2000}',
        '\u{2001}', '\u{2002}', '\u{2003}', '\u{2004}', '\u{2005}', '\u{2006}', '\u{2007}',
        '\u{2008}', '\u{2009}', '\u{200a}', '\u{2028}', '\u{2029}', '\u{202f}', '\u{205f}',
        '\u{3000}',
    ];
    assert(all.len() == 25);
    if white_space(c) {
        let code = c as int;
        let i: int = if code <= 0x0d {
            code - 9
        } else if code == 0x20 {
            5
        } else if code == 0x85 {
            6
        } else if code == 0xa0 {
            7
        } else if code == 0x1680 {
            8
        } else if code <= 0x200a {
            code - 0x2000 + 9
        } else if code <= 0x2029 {
            code - 0x2028 + 20
        } else if code == 0x202f {
            22
        } else if code == 0x205f {
            23
        } else {
            24
        };
        assert(all[i] == c);
    }
}

/// A text holds white space exactly if a part of it does.
pub proof fn law_white_space_in_parts(a: Seq<char>, b: Seq<char>, c: char)
    ensures
        has_white_space(a + b) <==> has_white_space(a) || has_white_space(b),
        has_white_space(seq![c]) <==> white_space(c),
        !has_white_space(Seq::<char>::empty()),
{
    let all = a + b;
    if has_white_space(all) {
        let i = choose|i: int| 0 <= i < all.len() && white_space(#[trigger] all[i]);
        if i < a.len() {
            assert(white_space(a[i]));
        } else {
            assert(white_space(b[i - a.len()]));
        }
    }
    if has_white_space(a) {
        let i = choose|i: int| 0 <= i < a.len() && white_space(#[trigger] a[i]);
        assert(white_space(all[i]));
    }
    if has_white_space(b) {
        let i = choose|i: int| 0 <= i < b.len() && white_space(#[trigger] b[i]);
        assert(white_space(all[i + a.len()]));
    }
    if white_space(c) {
        assert(white_space(seq![c][0]));
    }
}

/// All of the text is white space.
pub open spec fn all_white_space(text: Seq<char>) -> bool {
    forall|i: int| 0 <= i < text.len() ==> white_space(#[trigger] text[i])
}

proof fn lemma_trim_start(blank: Seq<char>, text: Seq<char>)
    requires
        all_white_space(blank),
        text.len() > 0 ==> !white_space(text[0]),
    ensures
        trim_start(blank + text) == text,
    decreases blank.len(),
{
    if blank.len() == 0 {
        assert(blank + text =~= text);
    } else {
        assert(white_space(blank[0]));
        assert((blank + text).drop_first() =~= blank.drop_first() + text);
        assert forall|i: int| 0 <= i < blank.drop_first().len() implies white_space(
            #[trigger] blank.drop_first()[i],
        ) by {
            assert(white_space(blank[i + 1]));
        }
        lemma_trim_start(blank.drop_first(), text);
    }
}

proof fn lemma_trim_end(text: Seq<char>, blank: Seq<char>)
    requires
        all_white_space(blank),
        text.len() > 0 ==> !white_space(text.last()),
    ensures
        trim_end(text + blank) == text,
    decreases blank.len(),
{
    if blank.len() == 0 {
        assert(text + blank =~= text);
    } else {
        assert(white_space(blank[blank.len() - 1]));
        assert((text + blank).drop_last() =~= text + blank.drop_last());
        assert forall|i: int| 0 <= i < blank.drop_last().len() implies white_space(
            #[trigger] blank.drop_last()[i],
        ) by {
            assert(white_space(blank[i]));
        }
        lemma_trim_end(text, blank.drop_last());
    }
}

/// Trimming takes the white space around a text away, and nothing else.
pub proof fn law_trimming(before: Seq<char>, text: Seq<char>, after: Seq<char>)
    requires
        all_white_space(before),
        all_white_space(after),
        text.len() > 0 ==> !white_space(text[0]) && !white_space(text.last()),
    ensures
        trimmed(before + text + after) == text,
{
    if text.len() > 0 {
        assert(before + text + after =~= before + (text + after));
        assert((text + after)[0] == text[0]);
        lemma_trim_start(before, text + after);
        lemma_trim_end(text, after);
    } else {
        let blank = before + after;
        assert(before + text + after =~= blank);
        assert forall|i: int| 0 <= i < blank.len() implies white_space(#[trigger] blank[i]) by {
            if i < before.len() {
                assert(white_space(before[i]));
            } else {
                assert(white_space(after[i - before.len()]));
            }
        }
        assert(blank + text =~= blank);
        lemma_trim_start(blank, text);
    }
}

/// A line feed ends a line, and with it goes a carriage return before it. What
/// follows is split into lines of its own.
pub proof fn law_a_line_feed_ends_a_line(line: Seq<char>, rest: Seq<char>)
    requires
        forall|i: int| 0 <= i < line.len() ==> line[i] != '\n',
    ensures
        line.len() == 0 || line.last() != '\r' ==> lines_of(line + seq!['\n'] + rest) == seq![line]
            + lines_of(rest),
        lines_of(line + seq!['\r', '\n'] + rest) == seq![line] + lines_of(rest),
{
    let n = line.len() as int;
    let one = line + seq!['\n'] + rest;
    lemma_first_line_feed(one, n);
    assert(one.take(n) =~= line);
    assert(one.skip(n + 1) =~= rest);
    let two = line + seq!['\r', '\n'] + rest;
    lemma_first_line_feed(two, n + 1);
    assert(two.take(n + 1) =~= line.push('\r'));
    assert(line.push('\r').drop_last() =~= line);
    assert(two.skip(n + 2) =~= rest);
}

/// A text without a line feed is one line, as it is, or none if it is empty.
pub proof fn law_the_last_line(line: Seq<char>)
    requires
        forall|i: int| 0 <= i < line.len() ==> line[i] != '\n',
    ensures
        line.len() > 0 ==> lines_of(line) == seq![line],
        line.len() == 0 ==> lines_of(line) == Seq::<Seq<char>>::empty(),
{
    lemma_first_line_feed(line, line.len() as int);
}

/// Ampersands and angle brackets become entities, and other characters stay.
pub proof fn law_entities(c: char)
    ensures
        escaped(seq!['&']) == "&amp;"@,
        escaped(seq!['<']) == "&lt;"@,
        escaped(seq!['>']) == "&gt;"@,
        c != '&' && c != '<' && c != '>' ==> escaped(seq![c]) == seq![c],
{
    assert(seq!['&'].drop_first() =~= seq![]);
    assert(seq!['<'].drop_first() =~= seq![]);
    assert(seq!['>'].drop_first() =~= seq![]);
    assert(seq![c].drop_first() =~= seq![]);
    reveal_with_fuel(escaped, 2);
    assert(escaped(seq!['&']) =~= "&amp;"@);
    assert(escaped(seq!['<']) =~= "&lt;"@);
    assert(escaped(seq!['>']) =~= "&gt;"@);
    if c != '&' && c != '<' && c != '>' {
        assert(escaped(seq![c]) =~= seq![c]);
    }
}

/// What the functions on texts give.
pub proof fn law_functions_on_texts(
    text: &str,
    other: &str,
    equal: bool,
    empty: bool,
    blank: bool,
    core: String,
    list: Vec<String>,
    markup: String,
)
    requires
        call_ensures(same, (text, other), equal),
        call_ensures(is_empty, (text,), empty),
        call_ensures(contains_white_space, (text,), blank),
        call_ensures(trim, (text,), core),
        call_ensures(lines, (text,), list),
        call_ensures(xml, (text,), markup),
    ensures
        equal <==> text@ == other@,
        empty <==> text@.len() == 0,
        blank <==> exists|i: int| 0 <= i < text@.len() && white_space(#[trigger] text@[i]),
        core@ == trimmed(text@),
        list@.len() == lines_of(text@).len(),
        forall|i: int| 0 <= i < list@.len() ==> (#[trigger] list@[i])@ == lines_of(text@)[i],
        markup@ == escaped(text@),
{
    assert(texts(list@).len() == list@.len());
    assert forall|i: int| 0 <= i < list@.len() implies (#[trigger] list@[i])@ == lines_of(
        text@,
    )[i] by {
        assert(texts(list@)[i] == list@[i]@);
    }
}

/// Numbers are written so that they can be read back.
pub proof fn law_written_numbers(n: u128, i: i32, one: String, other: String)
    requires
        call_ensures(natural, (n,), one),
        call_ensures(integer, (i,), other),
    ensures
        number_of(one@) == n,
        i >= 0 ==> number_of(other@) == i,
        i < 0 ==> other@[0] == '-' && number_of(other@.drop_first()) == -i,
{
    law_digits(n as nat);
    if i >= 0 {
        law_digits(i as nat);
    } else {
        law_digits((-i) as nat);
        assert(other@.drop_first() =~= digits((-i) as nat));
    }
}

/// A text is made of its characters, and a range of them spells that part of it.
pub proof fn law_characters_and_spelling(
    text: &str,
    all: Vec<char>,
    from: usize,
    to: usize,
    part: String,
)
    requires
        from <= to <= text@.len(),
        call_ensures(characters, (text,), all),
        call_ensures(spell, (&all, from, to), part),
    ensures
        all@ == text@,
        text@.take(from as int) + part@ + text@.skip(to as int) == text@,
{
    assert(text@.take(from as int) + part@ + text@.skip(to as int) =~= text@);
}

} // verus!
