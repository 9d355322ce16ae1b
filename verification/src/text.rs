//! Text building blocks: decimal rendering of integers, joining words, and
//! decoding of raw process output.

use vstd::prelude::*;
use vstd::utf8::*;

verus! {

/// The character of the decimal digit `d` (for `0 <= d < 10`).
pub open spec fn digit_char(d: int) -> char {
    (d + 48) as char
}

/// The decimal rendering of a natural number, without leading zeros.
pub open spec fn decimal(n: nat) -> Seq<char>
    decreases n,
{
    if n < 10 {
        seq![digit_char(n as int)]
    } else {
        decimal(n / 10).push(digit_char((n % 10) as int))
    }
}

/// The decimal rendering of an integer, with a leading `-` when negative.
pub open spec fn signed_decimal(n: int) -> Seq<char> {
    if n < 0 {
        seq!['-'] + decimal((-n) as nat)
    } else {
        decimal(n as nat)
    }
}

/// The one-character string of the decimal digit `d`.
fn digit_str(d: u64) -> (s: &'static str)
    requires
        d < 10,
    ensures
        s@ == seq![digit_char(d as int)],
{
    proof {
        reveal_strlit("0");
        reveal_strlit("1");
        reveal_strlit("2");
        reveal_strlit("3");
        reveal_strlit("4");
        reveal_strlit("5");
        reveal_strlit("6");
        reveal_strlit("7");
        reveal_strlit("8");
        reveal_strlit("9");
    }
    if d == 0 {
        "0"
    } else if d == 1 {
        "1"
    } else if d == 2 {
        "2"
    } else if d == 3 {
        "3"
    } else if d == 4 {
        "4"
    } else if d == 5 {
        "5"
    } else if d == 6 {
        "6"
    } else if d == 7 {
        "7"
    } else if d == 8 {
        "8"
    } else {
        "9"
    }
}

/// Renders `n` in decimal, as `format!("{}", n)` does.
pub fn decimal_u64(n: u64) -> (s: String)
    ensures
        s@ == decimal(n as nat),
    decreases n,
{
    if n < 10 {
        String::from_str(digit_str(n))
    } else {
        let mut s = decimal_u64(n / 10);
        s.append(digit_str(n % 10));
        s
    }
}

/// Renders `n` in decimal with a leading `-` when negative, as
/// `format!("{}", n)` does.
pub fn decimal_i32(n: i32) -> (s: String)
    ensures
        s@ == signed_decimal(n as int),
{
    if n < 0 {
        let magnitude: i64 = -(n as i64);
        let digits = decimal_u64(magnitude as u64);
        let mut s = String::from_str("-");
        proof {
            reveal_strlit("-");
        }
        s.append(digits.as_str());
        s
    } else {
        decimal_u64(n as u64)
    }
}

/// The views of a sequence of strings.
pub open spec fn texts(v: Seq<String>) -> Seq<Seq<char>> {
    v.map_values(|s: String| s@)
}

/// The words joined with `sep` between each two neighbours, as `[T]::join`
/// does for strings.
pub open spec fn joined(words: Seq<Seq<char>>, sep: Seq<char>) -> Seq<char>
    decreases words.len(),
{
    if words.len() == 0 {
        seq![]
    } else if words.len() == 1 {
        words[0]
    } else {
        joined(words.drop_last(), sep) + sep + words.last()
    }
}

/// Joins the words with `sep` between each two neighbours.
pub fn join_words(words: &Vec<String>, sep: &str) -> (s: String)
    ensures
        s@ == joined(texts(words@), sep@),
{
    let mut s = String::new();
    let ghost all = texts(words@);
    let mut i: usize = 0;
    while i < words.len()
        invariant
            i <= words.len(),
            all == texts(words@),
            s@ == joined(all.take(i as int), sep@),
        decreases words.len() - i,
    {
        if i != 0 {
            s.append(sep);
        }
        s.append(words[i].as_str());
        proof {
            assert(all.take(i + 1).drop_last() =~= all.take(i as int));
        }
        i = i + 1;
    }
    proof {
        assert(all.take(words.len() as int) =~= all);
    }
    s
}

/// The characters that separate words: ASCII space, tab, line feed,
/// carriage return and form feed.
pub open spec fn is_blank(c: char) -> bool {
    c == ' ' || c == '\t' || c == '\n' || c == '\r' || c == '\x0C'
}

/// The words of `s` that follow the partial word `cur`: each maximal run
/// of non-blank characters, in order; blanks only separate.
pub open spec fn words_after(s: Seq<char>, cur: Seq<char>) -> Seq<Seq<char>>
    decreases s.len(),
{
    if s.len() == 0 {
        if cur.len() == 0 {
            seq![]
        } else {
            seq![cur]
        }
    } else if is_blank(s[0]) {
        let rest = words_after(s.drop_first(), seq![]);
        if cur.len() == 0 {
            rest
        } else {
            seq![cur] + rest
        }
    } else {
        words_after(s.drop_first(), cur.push(s[0]))
    }
}

/// The words of `s`: its maximal runs of non-blank characters, in order.
pub open spec fn words(s: Seq<char>) -> Seq<Seq<char>> {
    words_after(s, seq![])
}

fn blank(c: char) -> (b: bool)
    ensures
        b == is_blank(c),
{
    c == ' ' || c == '\t' || c == '\n' || c == '\r' || c == '\x0C'
}

/// Appends to `out` the words of `s`, split at blanks.
pub fn push_words(s: &str, out: &mut Vec<String>)
    ensures
        texts(final(out)@) == texts(old(out)@) + words(s@),
{
    let n = s.unicode_len();
    let ghost text = s@;
    let ghost before = texts(out@);
    let mut start: usize = 0;
    let mut i: usize = 0;
    proof {
        assert(text.skip(0) =~= text);
        assert(text.subrange(0, 0) =~= Seq::<char>::empty());
    }
    while i < n
        invariant
            n == text.len(),
            text == s@,
            start <= i <= n,
            before + words(text) == texts(out@) + words_after(
                text.skip(i as int),
                text.subrange(start as int, i as int),
            ),
        decreases n - i,
    {
        let c = s.get_char(i);
        let ghost rest = text.skip(i as int);
        let ghost cur = text.subrange(start as int, i as int);
        proof {
            assert(rest[0] == c);
            assert(rest.drop_first() =~= text.skip(i + 1));
        }
        if blank(c) {
            if start < i {
                let word = String::from_str(s.substring_char(start, i));
                let ghost prior = out@;
                out.push(word);
                proof {
                    assert(texts(out@) =~= texts(prior) + seq![cur]);
                    assert(words_after(rest, cur) == seq![cur] + words_after(
                        text.skip(i + 1),
                        seq![],
                    ));
                }
            }
            start = i + 1;
            proof {
                assert(text.subrange(start as int, start as int) =~= Seq::<char>::empty());
            }
        } else {
            proof {
                assert(text.subrange(start as int, i + 1) =~= cur.push(c));
            }
        }
        i = i + 1;
    }
    let ghost cur = text.subrange(start as int, n as int);
    if start < n {
        let word = String::from_str(s.substring_char(start, n));
        let ghost prior = out@;
        out.push(word);
        proof {
            assert(texts(out@) =~= texts(prior) + seq![cur]);
        }
    }
    proof {
        assert(text.skip(n as int) =~= Seq::<char>::empty());
    }
}

/// What `String::from_utf8_lossy` makes of a byte sequence: the decoded
/// text, with each invalid sequence replaced by U+FFFD.
pub uninterp spec fn lossy_utf8(bytes: Seq<u8>) -> Seq<char>;

/// Decodes raw output bytes with `String::from_utf8_lossy`.
///
/// Trusted: the result is `lossy_utf8` of the bytes, and, as the standard
/// library documents, bytes that are valid UTF-8 decode to exactly the text
/// they encode. How invalid sequences are replaced is left unsaid.
#[verifier::external_body]
pub(crate) fn decode_lossy(bytes: &[u8]) -> (s: String)
    ensures
        s@ == lossy_utf8(bytes@),
        valid_utf8(bytes@) ==> s@ == decode_utf8(bytes@),
{
    String::from_utf8_lossy(bytes).to_string()
}

/// The number that a string of decimal digits reads as.
pub open spec fn digits_value(s: Seq<char>) -> int
    decreases s.len(),
{
    if s.len() == 0 {
        0
    } else {
        digits_value(s.drop_last()) * 10 + (s.last() as int - 48)
    }
}

/// The decimal rendering of `n` is a non-empty string of the digits `0` to
/// `9` that reads back as `n`, with no leading zero unless `n` is 0.
pub proof fn lemma_decimal_reads_back(n: nat)
    ensures
        decimal(n).len() > 0,
        forall|i: int| 0 <= i < decimal(n).len() ==> '0' <= #[trigger] decimal(n)[i] <= '9',
        digits_value(decimal(n)) == n,
        n > 0 ==> decimal(n)[0] != '0',
    decreases n,
{
    if n >= 10 {
        lemma_decimal_reads_back(n / 10);
        let d = decimal(n);
        assert(d.drop_last() =~= decimal(n / 10));
        assert(((n % 10) as int + 48) as char as int == (n % 10) as int + 48);
        assert(d[0] == decimal(n / 10)[0]);
        assert(d.last() as int - 48 == n % 10);
        assert(digits_value(d) == digits_value(decimal(n / 10)) * 10 + (n % 10));
        assert((n / 10) * 10 + n % 10 == n) by (nonlinear_arith);
    } else {
        assert((n as int + 48) as char as int == n as int + 48);
        assert(decimal(n).drop_last() =~= Seq::<char>::empty());
        assert(decimal(n).last() as int - 48 == n);
        assert(digits_value(decimal(n).drop_last()) == 0);
        assert(digits_value(decimal(n)) == digits_value(decimal(n).drop_last()) * 10 + (
        decimal(n).last() as int - 48));
    }
}

/// A negative number renders as `-` followed by the rendering of its
/// magnitude; any other as the rendering of itself.
pub proof fn lemma_signed_decimal_sign(n: int)
    ensures
        n < 0 ==> signed_decimal(n) == seq!['-'] + decimal((-n) as nat),
        n >= 0 ==> signed_decimal(n) == decimal(n as nat),
{
}

/// Reading with a partial word and no blank ahead yields that one word (or
/// nothing when it is empty).
proof fn lemma_words_after_plain(s: Seq<char>, cur: Seq<char>)
    requires
        forall|i: int|
            0 <= i < s.len() ==> #[trigger] s[i] != ' ' && s[i] != '\t' && s[i] != '\n' && s[i]
                != '\r' && s[i] != '\x0C',
    ensures
        (cur + s).len() == 0 ==> words_after(s, cur) == Seq::<Seq<char>>::empty(),
        (cur + s).len() > 0 ==> words_after(s, cur) == seq![cur + s],
    decreases s.len(),
{
    if s.len() > 0 {
        assert(s[0] != ' ' && s[0] != '\t' && s[0] != '\n' && s[0] != '\r' && s[0] != '\x0C');
        lemma_words_after_plain(s.drop_first(), cur.push(s[0]));
        assert(cur.push(s[0]) + s.drop_first() =~= cur + s);
    } else {
        assert(cur + s =~= cur);
    }
}

/// A run of non-blank characters joins the partial word being read.
proof fn lemma_words_after_concat(x: Seq<char>, y: Seq<char>, cur: Seq<char>)
    requires
        forall|i: int|
            0 <= i < x.len() ==> #[trigger] x[i] != ' ' && x[i] != '\t' && x[i] != '\n' && x[i]
                != '\r' && x[i] != '\x0C',
    ensures
        words_after(x + y, cur) == words_after(y, cur + x),
    decreases x.len(),
{
    if x.len() == 0 {
        assert(x + y =~= y);
        assert(cur + x =~= cur);
    } else {
        assert(x[0] != ' ' && x[0] != '\t' && x[0] != '\n' && x[0] != '\r' && x[0] != '\x0C');
        assert((x + y)[0] == x[0]);
        assert((x + y).drop_first() =~= x.drop_first() + y);
        lemma_words_after_concat(x.drop_first(), y, cur.push(x[0]));
        assert(cur.push(x[0]) + x.drop_first() =~= cur + x);
    }
}

/// A non-empty string with no space, tab, line feed, carriage return or
/// form feed is one word, itself: every other character (`+`, `-`, `.`,
/// letters, digits, anything beyond ASCII) belongs to the word.
pub proof fn lemma_words_of_plain_text(s: Seq<char>)
    requires
        s.len() > 0,
        forall|i: int|
            0 <= i < s.len() ==> #[trigger] s[i] != ' ' && s[i] != '\t' && s[i] != '\n' && s[i]
                != '\r' && s[i] != '\x0C',
    ensures
        words(s) == seq![s],
{
    lemma_words_after_plain(s, seq![]);
    assert(Seq::<char>::empty() + s =~= s);
}

/// Two non-blank runs with a space, tab, line feed, carriage return or
/// form feed between them are two words.
pub proof fn lemma_words_split_at_blank(a: Seq<char>, c: char, b: Seq<char>)
    requires
        a.len() > 0,
        b.len() > 0,
        c == ' ' || c == '\t' || c == '\n' || c == '\r' || c == '\x0C',
        forall|i: int|
            0 <= i < a.len() ==> #[trigger] a[i] != ' ' && a[i] != '\t' && a[i] != '\n' && a[i]
                != '\r' && a[i] != '\x0C',
        forall|i: int|
            0 <= i < b.len() ==> #[trigger] b[i] != ' ' && b[i] != '\t' && b[i] != '\n' && b[i]
                != '\r' && b[i] != '\x0C',
    ensures
        words(a + seq![c] + b) == seq![a, b],
{
    assert(a + seq![c] + b =~= a + (seq![c] + b));
    lemma_words_after_concat(a, seq![c] + b, seq![]);
    assert(Seq::<char>::empty() + a =~= a);
    let t = seq![c] + b;
    assert(t[0] == c);
    assert(t.drop_first() =~= b);
    lemma_words_of_plain_text(b);
    assert(seq![a] + seq![b] =~= seq![a, b]);
}

/// A string of blanks only has no words.
pub proof fn lemma_words_of_blanks(s: Seq<char>)
    requires
        forall|i: int|
            0 <= i < s.len() ==> #[trigger] s[i] == ' ' || s[i] == '\t' || s[i] == '\n' || s[i]
                == '\r' || s[i] == '\x0C',
    ensures
        words(s) == Seq::<Seq<char>>::empty(),
    decreases s.len(),
{
    if s.len() > 0 {
        assert(is_blank(s[0]));
        lemma_words_of_blanks(s.drop_first());
    }
}

/// A blank and a non-blank run after any text add that run as one more
/// word after the words of the text.
proof fn lemma_words_after_then_word(a: Seq<char>, c: char, b: Seq<char>, cur: Seq<char>)
    requires
        b.len() > 0,
        c == ' ' || c == '\t' || c == '\n' || c == '\r' || c == '\x0C',
        forall|i: int|
            0 <= i < b.len() ==> #[trigger] b[i] != ' ' && b[i] != '\t' && b[i] != '\n' && b[i]
                != '\r' && b[i] != '\x0C',
    ensures
        words_after(a + seq![c] + b, cur) == words_after(a, cur) + seq![b],
    decreases a.len(),
{
    let t = a + seq![c] + b;
    if a.len() == 0 {
        assert(t =~= seq![c] + b);
        assert(t[0] == c);
        assert(t.drop_first() =~= b);
        lemma_words_of_plain_text(b);
        if cur.len() == 0 {
            assert(Seq::<Seq<char>>::empty() + seq![b] =~= seq![b]);
        }
    } else {
        assert(t[0] == a[0]);
        assert(t.drop_first() =~= a.drop_first() + seq![c] + b);
        if is_blank(a[0]) {
            lemma_words_after_then_word(a.drop_first(), c, b, seq![]);
            if cur.len() > 0 {
                assert(seq![cur] + (words_after(a.drop_first(), seq![]) + seq![b]) =~= (seq![cur]
                    + words_after(a.drop_first(), seq![])) + seq![b]);
            }
        } else {
            lemma_words_after_then_word(a.drop_first(), c, b, cur.push(a[0]));
        }
    }
}

/// Joining non-empty names free of blanks with single spaces and splitting
/// the result into words gives the names back.
pub proof fn lemma_words_of_joined(names: Seq<Seq<char>>)
    requires
        forall|k: int| 0 <= k < names.len() ==> #[trigger] names[k].len() > 0,
        forall|k: int, i: int|
            0 <= k < names.len() && 0 <= i < names[k].len() ==> #[trigger] names[k][i] != ' '
                && names[k][i] != '\t' && names[k][i] != '\n' && names[k][i] != '\r'
                && names[k][i] != '\x0C',
    ensures
        words(joined(names, " "@)) == names,
    decreases names.len(),
{
    reveal_strlit(" ");
    if names.len() == 1 {
        lemma_words_of_plain_text(names[0]);
        assert(seq![names[0]] =~= names);
    } else if names.len() > 1 {
        let rest = names.drop_last();
        let last = names.last();
        assert forall|k: int| 0 <= k < rest.len() implies #[trigger] rest[k].len() > 0 by {
            assert(rest[k] == names[k]);
        }
        assert forall|k: int, i: int| 0 <= k < rest.len() && 0 <= i < rest[k].len() implies #[trigger] rest[k][i]
            != ' ' && rest[k][i] != '\t' && rest[k][i] != '\n' && rest[k][i] != '\r' && rest[k][i]
            != '\x0C' by {
            assert(rest[k] == names[k]);
        }
        assert forall|i: int| 0 <= i < last.len() implies #[trigger] last[i] != ' ' && last[i]
            != '\t' && last[i] != '\n' && last[i] != '\r' && last[i] != '\x0C' by {
            assert(last[i] == names[names.len() - 1][i]);
        }
        lemma_words_of_joined(rest);
        assert(" "@ =~= seq![' ']);
        lemma_words_after_then_word(joined(rest, " "@), ' ', last, seq![]);
        assert(rest + seq![last] =~= names);
    } else {
        assert(names =~= Seq::<Seq<char>>::empty());
    }
}

} // verus!
