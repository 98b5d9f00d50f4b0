//! Text helpers for the dashboard: decimal rendering of integers, thousands
//! grouping and HTML escaping.

use vstd::prelude::*;

verus! {

/// `String::push` of std: "Appends the given char to the end of this String."
/// The contract claims exactly that: the new contents are the old contents
/// followed by `ch`.
pub assume_specification[ String::push ](s: &mut String, ch: char)
    ensures
        final(s)@ == old(s)@.push(ch),
;

// ---------------------------------------------------------------------------
// Decimal rendering
// ---------------------------------------------------------------------------

/// The ASCII digit for `d` (meaningful for `d < 10`).
pub open spec fn digit_char(d: nat) -> char {
    (d + 48) as char
}

/// Decimal digits of a natural number, most significant first, no leading zeros.
pub open spec fn digits_of(n: nat) -> Seq<char>
    decreases n,
{
    if n < 10 {
        seq![digit_char(n)]
    } else {
        digits_of(n / 10).push(digit_char(n % 10))
    }
}

/// The text that Rust's `Display` gives an integer: an optional minus sign
/// followed by the decimal digits of its magnitude.
pub open spec fn decimal(i: int) -> Seq<char> {
    if i < 0 {
        seq!['-'] + digits_of((-i) as nat)
    } else {
        digits_of(i as nat)
    }
}

/// `{:02}` of a non-negative number: its digits, left-padded with `0` to width two.
pub open spec fn zero_padded2(n: nat) -> Seq<char> {
    if n < 10 {
        seq!['0'] + digits_of(n)
    } else {
        digits_of(n)
    }
}

pub fn push_digits(out: &mut String, n: u64)
    ensures
        final(out)@ == old(out)@ + digits_of(n as nat),
    decreases n,
{
    if n >= 10 {
        push_digits(out, n / 10);
    }
    let d: u8 = (n % 10) as u8;
    out.push((d + 48) as char);
    assert(out@ =~= old(out)@ + digits_of(n as nat));
}

/// Appends the `Display` text of `n`.
pub fn push_decimal(out: &mut String, n: i64)
    ensures
        final(out)@ == old(out)@ + decimal(n as int),
{
    if n < 0 {
        out.push('-');
        let magnitude: u64 = (0i128 - (n as i128)) as u64;
        push_digits(out, magnitude);
        assert(out@ =~= old(out)@ + decimal(n as int));
    } else {
        push_digits(out, n as u64);
    }
}

/// Appends `{:02}` of `n`.
pub fn push_zero_padded2(out: &mut String, n: u64)
    ensures
        final(out)@ == old(out)@ + zero_padded2(n as nat),
{
    if n < 10 {
        out.push('0');
    }
    push_digits(out, n);
    assert(out@ =~= old(out)@ + zero_padded2(n as nat));
}

// ---------------------------------------------------------------------------
// Thousands grouping
// ---------------------------------------------------------------------------

/// Inserts a comma before every run of three characters counted from the
/// right, as long as characters remain to its left.
pub open spec fn group_thousands(s: Seq<char>) -> Seq<char>
    decreases s.len(),
{
    if s.len() <= 3 {
        s
    } else {
        group_thousands(s.subrange(0, s.len() - 3)) + seq![','] + s.subrange(s.len() - 3, s.len() as int)
    }
}

/// The characters of a text with every comma taken out.
pub open spec fn strip_commas(s: Seq<char>) -> Seq<char>
    decreases s.len(),
{
    if s.len() == 0 {
        s
    } else {
        strip_commas(s.drop_last()) + (if s.last() == ',' { Seq::<char>::empty() } else { seq![s.last()] })
    }
}

pub fn chars_of(s: &str) -> (v: Vec<char>)
    ensures
        v@ == s@,
{
    let mut v: Vec<char> = Vec::new();
    for c in it: s.chars()
        invariant
            v@ == it.seq().take(it.index() as int),
    {
        v.push(c);
    }
    v
}

fn push_grouped(out: &mut String, s: &Vec<char>, end: usize)
    requires
        end <= s.len(),
    ensures
        final(out)@ == old(out)@ + group_thousands(s@.subrange(0, end as int)),
    decreases end,
{
    if end <= 3 {
        let mut i: usize = 0;
        while i < end
            invariant
                i <= end <= s.len(),
                out@ == old(out)@ + s@.subrange(0, i as int),
            decreases end - i,
        {
            out.push(s[i]);
            i = i + 1;
            assert(out@ =~= old(out)@ + s@.subrange(0, i as int));
        }
    } else {
        push_grouped(out, s, end - 3);
        out.push(',');
        out.push(s[end - 3]);
        out.push(s[end - 2]);
        out.push(s[end - 1]);
        let ghost t = s@.subrange(0, end as int);
        assert(t.subrange(0, t.len() - 3) =~= s@.subrange(0, end - 3));
        assert(t.subrange(t.len() - 3, t.len() as int) =~= seq![s@[end - 3], s@[end - 2], s@[end - 1]]);
        assert(out@ =~= old(out)@ + group_thousands(t));
    }
}

/// Formats `n` with a comma between each group of three characters of its
/// decimal text, counted from the right. The minus sign of a negative number
/// counts as a character, so `-123` becomes `-,123`.
pub fn format_number(n: i64) -> (res: String)
    ensures
        res@ == group_thousands(decimal(n as int)),
{
    let mut plain = String::new();
    push_decimal(&mut plain, n);
    assert(plain@ =~= decimal(n as int));
    let chars = chars_of(plain.as_str());
    let mut res = String::new();
    push_grouped(&mut res, &chars, chars.len());
    assert(chars@.subrange(0, chars.len() as int) =~= chars@);
    assert(res@ =~= group_thousands(decimal(n as int)));
    res
}

// ---------------------------------------------------------------------------
// HTML escaping
// ---------------------------------------------------------------------------

/// The escape of one character: the five HTML-significant characters become
/// entities, every other character stays as it is.
pub open spec fn escape_char(c: char) -> Seq<char> {
    if c == '&' {
        seq!['&', 'a', 'm', 'p', ';']
    } else if c == '<' {
        seq!['&', 'l', 't', ';']
    } else if c == '>' {
        seq!['&', 'g', 't', ';']
    } else if c == '"' {
        seq!['&', 'q', 'u', 'o', 't', ';']
    } else if c == '\'' {
        seq!['&', '#', 'x', '2', '7', ';']
    } else {
        seq![c]
    }
}

/// The escape of a whole text: each character replaced by its escape.
pub open spec fn escaped(s: Seq<char>) -> Seq<char>
    decreases s.len(),
{
    if s.len() == 0 {
        Seq::<char>::empty()
    } else {
        escaped(s.drop_last()) + escape_char(s.last())
    }
}

fn push_escaped_char(out: &mut String, c: char)
    ensures
        final(out)@ == old(out)@ + escape_char(c),
{
    if c == '&' {
        out.append("&amp;");
        proof { reveal_strlit("&amp;"); }
    } else if c == '<' {
        out.append("&lt;");
        proof { reveal_strlit("&lt;"); }
    } else if c == '>' {
        out.append("&gt;");
        proof { reveal_strlit("&gt;"); }
    } else if c == '"' {
        out.append("&quot;");
        proof { reveal_strlit("&quot;"); }
    } else if c == '\'' {
        out.append("&#x27;");
        proof { reveal_strlit("&#x27;"); }
    } else {
        out.push(c);
    }
    assert(out@ =~= old(out)@ + escape_char(c));
}

/// Appends the HTML escape of `s`.
pub fn push_escaped(out: &mut String, s: &str)
    ensures
        final(out)@ == old(out)@ + escaped(s@),
{
    let ghost start = out@;
    for c in it: s.chars()
        invariant
            start == old(out)@,
            it.seq() == s@,
            out@ == start + escaped(it.seq().take(it.index() as int)),
    {
        let ghost k: int = it.index() as int;
        push_escaped_char(out, c);
        proof {
            let t = it.seq().take(k + 1);
            assert(t.drop_last() =~= it.seq().take(k));
            assert(t.last() == c);
            assert(out@ =~= start + escaped(t));
        }
    }
    assert(s@.take(s@.len() as int) =~= s@);
}

/// Replaces `&`, `<`, `>`, `"` and `'` by their HTML entities.
pub fn html_escape(s: &str) -> (res: String)
    ensures
        res@ == escaped(s@),
{
    let mut res = String::new();
    push_escaped(&mut res, s);
    assert(res@ =~= escaped(s@));
    res
}

// ---------------------------------------------------------------------------
// Laws
// ---------------------------------------------------------------------------

proof fn lemma_strip_commas_add(a: Seq<char>, b: Seq<char>)
    ensures
        strip_commas(a + b) == strip_commas(a) + strip_commas(b),
    decreases b.len(),
{
    if b.len() == 0 {
        assert(a + b =~= a);
        assert(strip_commas(b) =~= Seq::<char>::empty());
        assert(strip_commas(a) + strip_commas(b) =~= strip_commas(a));
    } else {
        lemma_strip_commas_add(a, b.drop_last());
        assert((a + b).drop_last() =~= a + b.drop_last());
        assert((a + b).last() == b.last());
        let tail = if b.last() == ',' { Seq::<char>::empty() } else { seq![b.last()] };
        assert(strip_commas(a + b) =~= strip_commas(a) + strip_commas(b.drop_last()) + tail);
        assert(strip_commas(a) + strip_commas(b) =~= strip_commas(a) + (strip_commas(b.drop_last()) + tail));
    }
}

proof fn lemma_digit_not_comma(d: nat)
    requires
        d < 10,
    ensures
        digit_char(d) != ',',
        digit_char(d) != '-',
{
}

proof fn lemma_digits_have_no_commas(n: nat)
    ensures
        strip_commas(digits_of(n)) == digits_of(n),
    decreases n,
{
    if n < 10 {
        lemma_digit_not_comma(n);
        let s = digits_of(n);
        assert(s.drop_last() =~= Seq::<char>::empty());
        assert(strip_commas(Seq::<char>::empty()) =~= Seq::<char>::empty());
        assert(s.last() == digit_char(n));
        assert(strip_commas(s) =~= s);
    } else {
        lemma_digits_have_no_commas(n / 10);
        lemma_digit_not_comma(n % 10);
        let s = digits_of(n);
        assert(s.drop_last() =~= digits_of(n / 10));
        assert(s.last() == digit_char(n % 10));
        assert(strip_commas(s) =~= strip_commas(digits_of(n / 10)) + seq![digit_char(n % 10)]);
        assert(strip_commas(s) =~= s);
    }
}

proof fn lemma_group_thousands_strips(s: Seq<char>)
    ensures
        strip_commas(group_thousands(s)) == strip_commas(s),
    decreases s.len(),
{
    if s.len() > 3 {
        let head = s.subrange(0, s.len() - 3);
        let tail = s.subrange(s.len() - 3, s.len() as int);
        lemma_group_thousands_strips(head);
        lemma_strip_commas_add(group_thousands(head), seq![',']);
        lemma_strip_commas_add(group_thousands(head) + seq![','], tail);
        lemma_strip_commas_add(head, tail);
        let comma = seq![','];
        assert(comma.drop_last() =~= Seq::<char>::empty());
        assert(strip_commas(Seq::<char>::empty()) =~= Seq::<char>::empty());
        assert(comma.last() == ',');
        assert(strip_commas(comma) =~= Seq::<char>::empty());
        assert(head + tail =~= s);
    }
}

/// Taking the commas out of `format_number(n)` gives back the plain decimal
/// text of `n`: grouping only inserts separators.
pub proof fn law_format_number_keeps_digits(n: i64)
    ensures
        strip_commas(group_thousands(decimal(n as int))) == decimal(n as int),
{
    lemma_group_thousands_strips(decimal(n as int));
    if n < 0 {
        let m = (-n) as nat;
        lemma_digits_have_no_commas(m);
        lemma_strip_commas_add(seq!['-'], digits_of(m));
        let minus = seq!['-'];
        assert(minus.drop_last() =~= Seq::<char>::empty());
        assert(strip_commas(Seq::<char>::empty()) =~= Seq::<char>::empty());
        assert(minus.last() == '-');
        assert(strip_commas(minus) =~= minus);
    } else {
        lemma_digits_have_no_commas(n as nat);
    }
}

/// The characters that HTML gives a meaning to outside an entity's start.
pub open spec fn is_markup_char(c: char) -> bool {
    c == '<' || c == '>' || c == '"' || c == '\''
}

/// Escaped text holds no `<`, `>`, `"` or `'`: whatever a user names a room
/// or a player, it cannot open a tag or leave an attribute value.
pub proof fn law_escaped_has_no_markup(s: Seq<char>)
    ensures
        forall|k: int| 0 <= k < escaped(s).len() ==> !is_markup_char(#[trigger] escaped(s)[k]),
    decreases s.len(),
{
    if s.len() > 0 {
        law_escaped_has_no_markup(s.drop_last());
        let a = escaped(s.drop_last());
        let b = escape_char(s.last());
        assert forall|k: int| 0 <= k < escaped(s).len() implies !is_markup_char(#[trigger] escaped(s)[k]) by {
            if k >= a.len() {
                assert(escaped(s)[k] == b[k - a.len()]);
            } else {
                assert(escaped(s)[k] == a[k]);
            }
        }
    }
}

/// Escaping leaves text without any of the five special characters as it is.
pub proof fn law_escape_keeps_plain_text(s: Seq<char>)
    requires
        forall|k: int| 0 <= k < s.len() ==> !is_markup_char(#[trigger] s[k]) && s[k] != '&',
    ensures
        escaped(s) == s,
    decreases s.len(),
{
    if s.len() > 0 {
        law_escape_keeps_plain_text(s.drop_last());
        assert(s.last() == s[s.len() - 1]);
        assert(escaped(s) =~= s);
    }
}

/// Reading escaped text back: each entity becomes its character again, every
/// other character stays as it is.
pub open spec fn unescaped(t: Seq<char>) -> Seq<char>
    decreases t.len(),
{
    if t.len() == 0 {
        t
    } else if t.len() >= 5 && t.subrange(0, 5) == seq!['&', 'a', 'm', 'p', ';'] {
        seq!['&'] + unescaped(t.subrange(5, t.len() as int))
    } else if t.len() >= 4 && t.subrange(0, 4) == seq!['&', 'l', 't', ';'] {
        seq!['<'] + unescaped(t.subrange(4, t.len() as int))
    } else if t.len() >= 4 && t.subrange(0, 4) == seq!['&', 'g', 't', ';'] {
        seq!['>'] + unescaped(t.subrange(4, t.len() as int))
    } else if t.len() >= 6 && t.subrange(0, 6) == seq!['&', 'q', 'u', 'o', 't', ';'] {
        seq!['"'] + unescaped(t.subrange(6, t.len() as int))
    } else if t.len() >= 6 && t.subrange(0, 6) == seq!['&', '#', 'x', '2', '7', ';'] {
        seq!['\''] + unescaped(t.subrange(6, t.len() as int))
    } else {
        seq![t[0]] + unescaped(t.subrange(1, t.len() as int))
    }
}

/// Escaping a concatenation escapes each part: escaping works character by
/// character.
pub proof fn law_escaped_concat(a: Seq<char>, b: Seq<char>)
    ensures
        escaped(a + b) == escaped(a) + escaped(b),
    decreases b.len(),
{
    if b.len() == 0 {
        assert(a + b =~= a);
        assert(escaped(a) + escaped(b) =~= escaped(a));
    } else {
        law_escaped_concat(a, b.drop_last());
        assert((a + b).drop_last() =~= a + b.drop_last());
        assert((a + b).last() == b.last());
        assert(escaped(a) + escaped(b) =~= escaped(a) + escaped(b.drop_last()) + escape_char(b.last()));
    }
}

proof fn lemma_unescaped_step(c: char, t: Seq<char>)
    ensures
        unescaped(escape_char(c) + t) == seq![c] + unescaped(t),
{
    let e = escape_char(c);
    let u = e + t;
    assert(u.subrange(e.len() as int, u.len() as int) =~= t);
    if c == '&' {
        assert(u.subrange(0, 5) =~= e);
    } else if c == '<' {
        assert(u.subrange(0, 4) =~= e);
        assert(u[1] == 'l');
        assert(u.len() >= 5 ==> u.subrange(0, 5)[1] == 'l');
    } else if c == '>' {
        assert(u.subrange(0, 4) =~= e);
        assert(u.len() >= 5 ==> u.subrange(0, 5)[1] == 'g');
        assert(u.subrange(0, 4)[1] == 'g');
    } else if c == '"' {
        assert(u.subrange(0, 6) =~= e);
        assert(u.subrange(0, 5)[1] == 'q');
        assert(u.subrange(0, 4)[1] == 'q');
    } else if c == '\'' {
        assert(u.subrange(0, 6) =~= e);
        assert(u.subrange(0, 5)[1] == '#');
        assert(u.subrange(0, 4)[1] == '#');
        assert(u.subrange(0, 6)[1] == '#');
    } else {
        assert(u[0] == c);
        assert(u.len() >= 4 ==> u.subrange(0, 4)[0] == c);
        assert(u.len() >= 5 ==> u.subrange(0, 5)[0] == c);
        assert(u.len() >= 6 ==> u.subrange(0, 6)[0] == c);
    }
}

/// Unescaping escaped text gives back the original text: escaping loses
/// nothing, so two different names never show as the same text.
pub proof fn law_unescape_after_escape(s: Seq<char>)
    ensures
        unescaped(escaped(s)) == s,
    decreases s.len(),
{
    if s.len() > 0 {
        let rest = s.subrange(1, s.len() as int);
        assert(s =~= seq![s[0]] + rest);
        law_escaped_concat(seq![s[0]], rest);
        let one = seq![s[0]];
        assert(one.drop_last() =~= Seq::<char>::empty());
        assert(escaped(Seq::<char>::empty()) =~= Seq::<char>::empty());
        assert(escaped(one) =~= escape_char(s[0]));
        lemma_unescaped_step(s[0], escaped(rest));
        law_unescape_after_escape(rest);
    } else {
        assert(escaped(s) =~= Seq::<char>::empty());
    }
}

/// Different texts never escape to the same text.
pub proof fn law_escape_is_injective(a: Seq<char>, b: Seq<char>)
    requires
        escaped(a) == escaped(b),
    ensures
        a == b,
{
    law_unescape_after_escape(a);
    law_unescape_after_escape(b);
}

/// The markup characters of a text, in order.
pub open spec fn markup_of(s: Seq<char>) -> Seq<char>
    decreases s.len(),
{
    if s.len() == 0 {
        s
    } else {
        markup_of(s.drop_last()) + (if is_markup_char(s.last()) { seq![s.last()] } else { Seq::<char>::empty() })
    }
}

/// The markup characters of a concatenation are those of its parts.
pub broadcast proof fn lemma_markup_of_concat(a: Seq<char>, b: Seq<char>)
    ensures
        #[trigger] markup_of(a + b) == markup_of(a) + markup_of(b),
    decreases b.len(),
{
    if b.len() == 0 {
        assert(a + b =~= a);
        assert(markup_of(a) + markup_of(b) =~= markup_of(a));
    } else {
        lemma_markup_of_concat(a, b.drop_last());
        assert((a + b).drop_last() =~= a + b.drop_last());
        assert((a + b).last() == b.last());
        let tail = if is_markup_char(b.last()) { seq![b.last()] } else { Seq::<char>::empty() };
        assert(markup_of(a + b) =~= markup_of(a) + markup_of(b.drop_last()) + tail);
        assert(markup_of(a) + markup_of(b) =~= markup_of(a) + (markup_of(b.drop_last()) + tail));
    }
}

/// Escaped text contributes no markup character to whatever it is put into.
pub broadcast proof fn lemma_markup_of_escaped(s: Seq<char>)
    ensures
        #[trigger] markup_of(escaped(s)) == Seq::<char>::empty(),
    decreases s.len(),
{
    if s.len() > 0 {
        lemma_markup_of_escaped(s.drop_last());
        let e = escape_char(s.last());
        lemma_markup_of_concat(escaped(s.drop_last()), e);
        assert(markup_of(e) =~= Seq::<char>::empty()) by {
            lemma_markup_of_no_markup(e);
        }
    } else {
        assert(markup_of(escaped(s)) =~= Seq::<char>::empty());
    }
}

proof fn lemma_markup_of_no_markup(s: Seq<char>)
    requires
        forall|k: int| 0 <= k < s.len() ==> !is_markup_char(#[trigger] s[k]),
    ensures
        markup_of(s) == Seq::<char>::empty(),
    decreases s.len(),
{
    if s.len() > 0 {
        lemma_markup_of_no_markup(s.drop_last());
        assert(!is_markup_char(s[s.len() - 1]));
        assert(markup_of(s) =~= Seq::<char>::empty());
    } else {
        assert(markup_of(s) =~= Seq::<char>::empty());
    }
}

// ---------------------------------------------------------------------------
// Laws on decimal text and on the places of the separators
// ---------------------------------------------------------------------------

/// A text holds no comma.
pub open spec fn comma_free(s: Seq<char>) -> bool {
    forall|k: int| 0 <= k < s.len() ==> #[trigger] s[k] != ','
}

/// A text cut at its commas: the runs between them, in order (one run more
/// than there are commas).
pub open spec fn comma_pieces(s: Seq<char>) -> Seq<Seq<char>>
    decreases s.len(),
{
    if s.len() == 0 {
        seq![Seq::<char>::empty()]
    } else {
        let p = comma_pieces(s.drop_last());
        if s.last() == ',' {
            p.push(Seq::<char>::empty())
        } else {
            p.update(p.len() - 1, p[p.len() - 1].push(s.last()))
        }
    }
}

/// The pieces put back together without separators.
pub open spec fn join_pieces(p: Seq<Seq<char>>) -> Seq<char>
    decreases p.len(),
{
    if p.len() == 0 {
        Seq::<char>::empty()
    } else {
        join_pieces(p.drop_last()) + p.last()
    }
}

/// Is `c` one of the ten decimal digits?
pub open spec fn is_digit(c: char) -> bool {
    '0' <= c && c <= '9'
}

/// The number that a text of decimal digits denotes.
pub open spec fn digits_value(s: Seq<char>) -> int
    decreases s.len(),
{
    if s.len() == 0 {
        0
    } else {
        digits_value(s.drop_last()) * 10 + (s.last() as int - 48)
    }
}

proof fn lemma_comma_pieces_nonempty(s: Seq<char>)
    ensures
        comma_pieces(s).len() >= 1,
    decreases s.len(),
{
    if s.len() > 0 {
        lemma_comma_pieces_nonempty(s.drop_last());
    }
}

proof fn lemma_comma_pieces_extend(a: Seq<char>, b: Seq<char>)
    requires
        comma_free(b),
    ensures
        comma_pieces(a + b) == comma_pieces(a).update(
            comma_pieces(a).len() - 1,
            comma_pieces(a)[comma_pieces(a).len() - 1] + b,
        ),
    decreases b.len(),
{
    lemma_comma_pieces_nonempty(a);
    let pa = comma_pieces(a);
    if b.len() == 0 {
        assert(a + b =~= a);
        assert(pa[pa.len() - 1] + b =~= pa[pa.len() - 1]);
        assert(pa.update(pa.len() - 1, pa[pa.len() - 1] + b) =~= pa);
    } else {
        let b0 = b.drop_last();
        assert(comma_free(b0)) by {
            assert forall|k: int| 0 <= k < b0.len() implies #[trigger] b0[k] != ',' by {
                assert(b0[k] == b[k]);
            }
        }
        lemma_comma_pieces_extend(a, b0);
        assert((a + b).drop_last() =~= a + b0);
        assert((a + b).last() == b.last());
        assert(b.last() == b[b.len() - 1]);
        lemma_comma_pieces_nonempty(a + b0);
        assert(pa[pa.len() - 1] + b0.push(b.last()) =~= (pa[pa.len() - 1] + b0).push(b.last()));
        assert(b0.push(b.last()) =~= b);
        assert(comma_pieces(a + b) =~= pa.update(pa.len() - 1, pa[pa.len() - 1] + b));
    }
}

pub proof fn lemma_comma_pieces_of_free(s: Seq<char>)
    requires
        comma_free(s),
    ensures
        comma_pieces(s) == seq![s],
{
    lemma_comma_pieces_extend(Seq::<char>::empty(), s);
    assert(Seq::<char>::empty() + s =~= s);
    assert(comma_pieces(Seq::<char>::empty()) == seq![Seq::<char>::empty()]);
    assert(Seq::<char>::empty() + s =~= s);
    assert(seq![Seq::<char>::empty()].update(0, Seq::<char>::empty() + s) =~= seq![s]);
}

pub proof fn lemma_comma_pieces_separated(a: Seq<char>, b: Seq<char>)
    requires
        comma_free(b),
    ensures
        comma_pieces(a + seq![','] + b) == comma_pieces(a).push(b),
{
    let ac = a + seq![','];
    assert(ac.drop_last() =~= a);
    assert(ac.last() == ',');
    assert(comma_pieces(ac) == comma_pieces(a).push(Seq::<char>::empty()));
    lemma_comma_pieces_extend(ac, b);
    let pa = comma_pieces(a);
    assert(Seq::<char>::empty() + b =~= b);
    assert(pa.push(Seq::<char>::empty()).update(pa.len() as int, Seq::<char>::empty() + b) =~= pa.push(b));
}

proof fn lemma_join_push(p: Seq<Seq<char>>, x: Seq<char>)
    ensures
        join_pieces(p.push(x)) == join_pieces(p) + x,
{
    assert(p.push(x).drop_last() =~= p);
}

proof fn lemma_group_thousands_pieces(s: Seq<char>)
    requires
        comma_free(s),
        s.len() >= 1,
    ensures
        comma_pieces(group_thousands(s)).len() == (s.len() + 2) / 3,
        1 <= comma_pieces(group_thousands(s))[0].len() <= 3,
        forall|k: int|
            1 <= k < comma_pieces(group_thousands(s)).len() ==> (#[trigger] comma_pieces(group_thousands(s))[k]).len()
                == 3,
        join_pieces(comma_pieces(group_thousands(s))) == s,
    decreases s.len(),
{
    if s.len() <= 3 {
        lemma_comma_pieces_of_free(s);
        lemma_join_push(Seq::<Seq<char>>::empty(), s);
        assert(seq![s] =~= Seq::<Seq<char>>::empty().push(s));
        assert(join_pieces(Seq::<Seq<char>>::empty()) =~= Seq::<char>::empty());
        assert(Seq::<char>::empty() + s =~= s);
    } else {
        let head = s.subrange(0, s.len() - 3);
        let tail = s.subrange(s.len() - 3, s.len() as int);
        assert(comma_free(head)) by {
            assert forall|k: int| 0 <= k < head.len() implies #[trigger] head[k] != ',' by {
                assert(head[k] == s[k]);
            }
        }
        assert(comma_free(tail)) by {
            assert forall|k: int| 0 <= k < tail.len() implies #[trigger] tail[k] != ',' by {
                assert(tail[k] == s[s.len() - 3 + k]);
            }
        }
        lemma_group_thousands_pieces(head);
        lemma_comma_pieces_separated(group_thousands(head), tail);
        let ph = comma_pieces(group_thousands(head));
        assert(comma_pieces(group_thousands(s)) == ph.push(tail));
        lemma_join_push(ph, tail);
        assert(head + tail =~= s);
        assert forall|k: int|
            1 <= k < ph.push(tail).len() implies (#[trigger] ph.push(tail)[k]).len() == 3 by {
            if k < ph.len() {
                assert(ph.push(tail)[k] == ph[k]);
            }
        }
        assert(ph.push(tail)[0] == ph[0]);
    }
}

/// Where `format_number` puts its commas: cut at them, the text falls into
/// runs of which the first has one to three characters and every other
/// exactly three, so there is a comma exactly when the number's text is
/// longer than three characters; and the runs put together are that text.
pub proof fn law_format_number_groups_of_three(n: i64)
    ensures
        ({
            let p = comma_pieces(group_thousands(decimal(n as int)));
            &&& p.len() == (decimal(n as int).len() + 2) / 3
            &&& 1 <= p[0].len() <= 3
            &&& forall|k: int| 1 <= k < p.len() ==> (#[trigger] p[k]).len() == 3
            &&& join_pieces(p) == decimal(n as int)
            &&& (p.len() > 1 <==> decimal(n as int).len() > 3)
        }),
{
    lemma_decimal_comma_free(n as int);
    lemma_decimal_digits(n as int);
    lemma_group_thousands_pieces(decimal(n as int));
}

proof fn lemma_digits_of_shape(n: nat)
    ensures
        digits_of(n).len() >= 1,
        forall|k: int| 0 <= k < digits_of(n).len() ==> is_digit(#[trigger] digits_of(n)[k]),
        n >= 1 ==> digits_of(n)[0] != '0',
        digits_value(digits_of(n)) == n,
    decreases n,
{
    if n < 10 {
        let s = digits_of(n);
        assert(s.drop_last() =~= Seq::<char>::empty());
        assert(digit_char(n) as int == n + 48);
        assert(s[0] == digit_char(n));
        assert(s.last() == digit_char(n));
        assert(digits_value(Seq::<char>::empty()) == 0);
        assert(digits_value(s) == n);
    } else {
        lemma_digits_of_shape(n / 10);
        let s = digits_of(n);
        let h = digits_of(n / 10);
        assert(s.drop_last() =~= h);
        assert(digit_char(n % 10) as int == n % 10 + 48);
        assert forall|k: int| 0 <= k < s.len() implies is_digit(#[trigger] s[k]) by {
            if k < h.len() {
                assert(s[k] == h[k]);
            }
        }
        assert(s[0] == h[0]);
        assert(n / 10 >= 1);
        assert(s.last() == digit_char(n % 10));
        assert(digits_value(s) == digits_value(h) * 10 + (n % 10));
        assert(n == (n / 10) * 10 + n % 10);
    }
}

proof fn lemma_decimal_digits(i: int)
    ensures
        decimal(i).len() >= 1,
        forall|k: int| 0 <= k < decimal(i).len() ==> #[trigger] decimal(i)[k] != ',',
{
    if i < 0 {
        lemma_digits_of_shape((-i) as nat);
        let d = digits_of((-i) as nat);
        assert forall|k: int| 0 <= k < decimal(i).len() implies #[trigger] decimal(i)[k] != ',' by {
            if k > 0 {
                assert(decimal(i)[k] == d[k - 1]);
                assert(is_digit(d[k - 1]));
            }
        }
    } else {
        lemma_digits_of_shape(i as nat);
        let d = digits_of(i as nat);
        assert forall|k: int| 0 <= k < decimal(i).len() implies #[trigger] decimal(i)[k] != ',' by {
            assert(is_digit(d[k]));
        }
    }
}

pub proof fn lemma_decimal_comma_free(i: int)
    ensures
        comma_free(decimal(i)),
{
    lemma_decimal_digits(i);
}

/// `decimal` is the text that Rust's `Display` gives an integer: a minus
/// sign exactly for a negative number, then a run of decimal digits without
/// leading zero (unless the number is zero) that denotes the magnitude.
pub proof fn law_decimal_is_display(i: int)
    ensures
        ({
            let d = decimal(i);
            let digits = if i < 0 { d.drop_first() } else { d };
            &&& (i < 0 <==> (d.len() > 0 && d[0] == '-'))
            &&& digits.len() >= 1
            &&& forall|k: int| 0 <= k < digits.len() ==> is_digit(#[trigger] digits[k])
            &&& (digits.len() > 1 ==> digits[0] != '0')
            &&& digits_value(digits) == (if i < 0 { -i } else { i })
        }),
{
    if i < 0 {
        let m = (-i) as nat;
        lemma_digits_of_shape(m);
        assert(decimal(i).drop_first() =~= digits_of(m));
    } else {
        lemma_digits_of_shape(i as nat);
        let d = digits_of(i as nat);
        assert(is_digit(d[0]));
        if d.len() > 1 {
            assert(i >= 1) by {
                if i == 0 {
                    assert(d.len() == 1);
                }
            }
        }
    }
}

/// What each special character becomes: `&` the entity `&amp;`, `<` `&lt;`,
/// `>` `&gt;`, `"` `&quot;` and `'` `&#x27;`; any other character stays.
pub proof fn law_escape_entities(c: char)
    ensures
        escaped(seq!['&']) == "&amp;"@,
        escaped(seq!['<']) == "&lt;"@,
        escaped(seq!['>']) == "&gt;"@,
        escaped(seq!['"']) == "&quot;"@,
        escaped(seq!['\'']) == "&#x27;"@,
        c != '&' && c != '<' && c != '>' && c != '"' && c != '\'' ==> escaped(seq![c]) == seq![c],
{
    reveal_strlit("&amp;");
    reveal_strlit("&lt;");
    reveal_strlit("&gt;");
    reveal_strlit("&quot;");
    reveal_strlit("&#x27;");
    assert forall|d: char| #[trigger] escaped(seq![d]) == escape_char(d) by {
        assert(seq![d].drop_last() =~= Seq::<char>::empty());
        assert(escaped(Seq::<char>::empty()) =~= Seq::<char>::empty());
        assert(Seq::<char>::empty() + escape_char(d) =~= escape_char(d));
    }
    assert(escaped(seq!['&']) =~= "&amp;"@);
    assert(escaped(seq!['<']) =~= "&lt;"@);
    assert(escaped(seq!['>']) =~= "&gt;"@);
    assert(escaped(seq!['"']) =~= "&quot;"@);
    assert(escaped(seq!['\'']) =~= "&#x27;"@);
}

/// `{:02}` of a number below 100 is two digits denoting it; of a larger
/// number it is its plain decimal text.
pub proof fn law_zero_padded2(n: nat)
    ensures
        n < 100 ==> zero_padded2(n).len() == 2 && is_digit(zero_padded2(n)[0]) && is_digit(zero_padded2(n)[1])
            && digits_value(zero_padded2(n)) == n,
        n >= 10 ==> zero_padded2(n) == decimal(n as int),
{
    lemma_digits_of_shape(n);
    let d = digits_of(n);
    if n < 10 {
        let z = zero_padded2(n);
        assert(z =~= seq!['0', d[0]]);
        assert(d.len() == 1) by {
            assert(d.drop_last() =~= Seq::<char>::empty());
        }
        assert(z.drop_last() =~= seq!['0']);
        assert(seq!['0'].drop_last() =~= Seq::<char>::empty());
        assert(digits_value(Seq::<char>::empty()) == 0);
        assert(seq!['0'].last() == '0');
        assert(('0' as int) == 48);
        assert(digits_value(seq!['0']) == 0);
        assert(digits_value(d) == digits_value(Seq::<char>::empty()) * 10 + (d[0] as int - 48)) by {
            assert(d.drop_last() =~= Seq::<char>::empty());
        }
    } else if n < 100 {
        assert(d =~= digits_of(n / 10).push(digit_char(n % 10)));
        assert(digits_of(n / 10).len() == 1) by {
            assert(n / 10 < 10);
        }
    }
}

} // verus!
