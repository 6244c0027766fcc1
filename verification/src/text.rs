use vstd::prelude::*;

verus! {

// ---------------------------------------------------------------------------
// Line splitting, as `str::lines` does it.
// ---------------------------------------------------------------------------

/// Position of the first line feed in `s`, or `s.len()` when there is none.
pub open spec fn first_newline(s: Seq<char>) -> nat
    decreases s.len(),
{
    if s.len() == 0 {
        0
    } else if s[0] == '\n' {
        0
    } else {
        1 + first_newline(s.drop_first())
    }
}

/// A line without the carriage return that may end it.
pub open spec fn strip_cr(line: Seq<char>) -> Seq<char> {
    if line.len() > 0 && line.last() == '\r' {
        line.drop_last()
    } else {
        line
    }
}

/// The lines of a text: split at every `\n`, each line without its `\n` and
/// without one `\r` just before it; a final line ending adds no empty line.
pub open spec fn lines(s: Seq<char>) -> Seq<Seq<char>>
    decreases s.len(),
{
    if s.len() == 0 {
        Seq::empty()
    } else {
        let i = first_newline(s);
        if i >= s.len() {
            seq![s]
        } else {
            seq![strip_cr(s.take(i as int))] + lines(s.skip((i + 1) as int))
        }
    }
}

/// The views of a list of strings.
pub open spec fn strings_view(v: Seq<String>) -> Seq<Seq<char>> {
    v.map_values(|s: String| s@)
}

pub proof fn lemma_first_newline(s: Seq<char>, i: int)
    requires
        0 <= i <= s.len(),
        forall|j: int| 0 <= j < i ==> s[j] != '\n',
        i < s.len() ==> s[i] == '\n',
    ensures
        first_newline(s) == i,
    decreases i,
{
    if i > 0 {
        lemma_first_newline(s.drop_first(), i - 1);
    }
}

proof fn lemma_first_newline_facts(s: Seq<char>)
    ensures
        first_newline(s) <= s.len(),
        forall|j: int| 0 <= j < first_newline(s) ==> s[j] != '\n',
        first_newline(s) < s.len() ==> s[first_newline(s) as int] == '\n',
    decreases s.len(),
{
    if s.len() > 0 && s[0] != '\n' {
        lemma_first_newline_facts(s.drop_first());
        assert forall|j: int| 0 <= j < first_newline(s) implies s[j] != '\n' by {
            if j > 0 {
                assert(s[j] == s.drop_first()[j - 1]);
            }
        }
    }
}

/// Law: a final line ending adds no line. A non-empty text that does not
/// end with a line feed has the same lines with `\r\n` appended, and, when
/// it does not end with a carriage return either, with `\n` appended.
pub proof fn lemma_final_line_ending(s: Seq<char>)
    requires
        s.len() > 0,
        s.last() != '\n',
    ensures
        lines(s + seq!['\r', '\n']) == lines(s),
        s.last() != '\r' ==> lines(s + seq!['\n']) == lines(s),
    decreases s.len(),
{
    lemma_first_newline_facts(s);
    let i = first_newline(s) as int;
    let n = s.len() as int;
    let crlf = s + seq!['\r', '\n'];
    let lf = s + seq!['\n'];
    if i == s.len() {
        lemma_first_newline(crlf, n + 1);
        assert(crlf.take(n + 1) =~= s.push('\r'));
        assert(s.push('\r').drop_last() =~= s);
        assert(crlf.skip(n + 2) =~= Seq::<char>::empty());
        assert(lines(Seq::<char>::empty()) == Seq::<Seq<char>>::empty());
        assert(lines(crlf) == seq![strip_cr(crlf.take(n + 1))] + lines(crlf.skip(n + 2)));
        assert(strip_cr(crlf.take(n + 1)) == s);
        assert(lines(s) == seq![s]);
        assert(seq![s] + Seq::<Seq<char>>::empty() =~= seq![s]);
        if s.last() != '\r' {
            lemma_first_newline(lf, n);
            assert(lf.take(n) =~= s);
            assert(lf.skip(n + 1) =~= Seq::<char>::empty());
            assert(lines(lf) == seq![strip_cr(lf.take(n))] + lines(lf.skip(n + 1)));
            assert(strip_cr(s) == s);
        }
    } else {
        let rest = s.skip(i + 1);
        assert(rest.len() > 0) by {
            if i == s.len() - 1 {
                assert(s.last() == s[i]);
            }
        }
        assert(rest.last() == s.last());
        lemma_final_line_ending(rest);
        lemma_first_newline(crlf, i);
        assert(crlf.take(i) =~= s.take(i));
        assert(crlf.skip(i + 1) =~= rest + seq!['\r', '\n']);
        assert(lines(s) == seq![strip_cr(s.take(i))] + lines(rest));
        assert(lines(crlf) == seq![strip_cr(crlf.take(i))] + lines(crlf.skip(i + 1)));
        if s.last() != '\r' {
            lemma_first_newline(lf, i);
            assert(lf.take(i) =~= s.take(i));
            assert(lf.skip(i + 1) =~= rest + seq!['\n']);
            assert(lines(lf) == seq![strip_cr(lf.take(i))] + lines(lf.skip(i + 1)));
        }
    }
}

/// Law: a non-empty text without a line feed is one line, itself.
pub proof fn lemma_single_line(s: Seq<char>)
    requires
        s.len() > 0,
        forall|j: int| 0 <= j < s.len() ==> s[j] != '\n',
    ensures
        lines(s) == seq![s],
{
    lemma_first_newline(s, s.len() as int);
}

/// Splits a text into its lines (see `lines`).
pub fn split_lines(text: &str) -> (r: Vec<String>)
    ensures
        strings_view(r@) == lines(text@),
{
    let ghost s = text@;
    let n = text.unicode_len();
    let mut out: Vec<String> = Vec::new();
    let mut start: usize = 0;
    let mut prev_cr = false;
    let mut k: usize = 0;
    proof {
        assert(s.skip(0) =~= s);
        assert(strings_view(out@) =~= Seq::<Seq<char>>::empty());
    }
    while k < n
        invariant
            n == s.len(),
            s == text@,
            start <= k <= n,
            forall|j: int| start <= j < k ==> s[j] != '\n',
            prev_cr == (k > start && s[k - 1] == '\r'),
            lines(s) == strings_view(out@) + lines(s.skip(start as int)),
        decreases n - k,
    {
        let c = text.get_char(k);
        if c == '\n' {
            let ghost rest = s.skip(start as int);
            proof {
                lemma_first_newline(rest, k - start);
                assert(rest.take(k - start) =~= s.subrange(start as int, k as int));
                assert(rest.skip(k - start + 1) =~= s.skip(k + 1));
            }
            let end = if prev_cr { k - 1 } else { k };
            let line = String::from_str(text.substring_char(start, end));
            proof {
                assert(line@ == strip_cr(s.subrange(start as int, k as int)));
            }
            let ghost before = out@;
            out.push(line);
            proof {
                assert(strings_view(out@) =~= strings_view(before).push(line@));
            }
            start = k + 1;
            prev_cr = false;
        } else {
            prev_cr = c == '\r';
        }
        k = k + 1;
    }
    if start < n {
        let ghost rest = s.skip(start as int);
        proof {
            lemma_first_newline(rest, rest.len() as int);
        }
        let line = String::from_str(text.substring_char(start, n));
        let ghost before = out@;
        out.push(line);
        proof {
            assert(rest =~= s.subrange(start as int, n as int));
            assert(strings_view(out@) =~= strings_view(before).push(line@));
        }
    } else {
        proof {
            assert(s.skip(start as int) =~= Seq::<char>::empty());
        }
    }
    out
}

// ---------------------------------------------------------------------------
// Trimming, as `str::trim` does it.
// ---------------------------------------------------------------------------

/// The characters with the Unicode `White_Space` property.
pub open spec fn is_white_space(c: char) -> bool {
    let v = c as u32;
    ||| 0x09 <= v <= 0x0d
    ||| v == 0x20
    ||| v == 0x85
    ||| v == 0xa0
    ||| v == 0x1680
    ||| 0x2000 <= v <= 0x200a
    ||| v == 0x2028
    ||| v == 0x2029
    ||| v == 0x202f
    ||| v == 0x205f
    ||| v == 0x3000
}

/// `s` without its leading white space.
pub open spec fn trim_start(s: Seq<char>) -> Seq<char>
    decreases s.len(),
{
    if s.len() > 0 && is_white_space(s[0]) {
        trim_start(s.drop_first())
    } else {
        s
    }
}

/// `s` without its trailing white space.
pub open spec fn trim_end(s: Seq<char>) -> Seq<char>
    decreases s.len(),
{
    if s.len() > 0 && is_white_space(s.last()) {
        trim_end(s.drop_last())
    } else {
        s
    }
}

/// `s` without leading and trailing white space.
pub open spec fn trim(s: Seq<char>) -> Seq<char> {
    trim_end(trim_start(s))
}

/// Whether a character has the Unicode `White_Space` property.
pub fn white_space(c: char) -> (r: bool)
    ensures
        r == is_white_space(c),
{
    let v = c as u32;
    (0x09 <= v && v <= 0x0d) || v == 0x20 || v == 0x85 || v == 0xa0 || v == 0x1680 || (0x2000
        <= v && v <= 0x200a) || v == 0x2028 || v == 0x2029 || v == 0x202f || v == 0x205f || v
        == 0x3000
}

proof fn lemma_trim_start(s: Seq<char>, i: int)
    requires
        0 <= i <= s.len(),
        forall|j: int| 0 <= j < i ==> is_white_space(#[trigger] s[j]),
        i < s.len() ==> !is_white_space(s[i]),
    ensures
        trim_start(s) == s.skip(i),
    decreases i,
{
    if i > 0 {
        lemma_trim_start(s.drop_first(), i - 1);
        assert(s.drop_first().skip(i - 1) =~= s.skip(i));
    } else {
        assert(s.skip(0) =~= s);
    }
}

proof fn lemma_trim_end(s: Seq<char>, j: int)
    requires
        0 <= j <= s.len(),
        forall|k: int| j <= k < s.len() ==> is_white_space(#[trigger] s[k]),
        j > 0 ==> !is_white_space(s[j - 1]),
    ensures
        trim_end(s) == s.take(j),
    decreases s.len() - j,
{
    if j < s.len() {
        lemma_trim_end(s.drop_last(), j);
        assert(s.drop_last().take(j) =~= s.take(j));
    } else {
        assert(s.take(j) =~= s);
    }
}

/// The text without leading and trailing white space.
pub fn trimmed(text: &str) -> (r: String)
    ensures
        r@ == trim(text@),
{
    let ghost s = text@;
    let n = text.unicode_len();
    let mut i: usize = 0;
    while i < n && white_space(text.get_char(i))
        invariant
            n == s.len(),
            s == text@,
            i <= n,
            forall|j: int| 0 <= j < i ==> is_white_space(#[trigger] s[j]),
        decreases n - i,
    {
        i = i + 1;
    }
    proof {
        lemma_trim_start(s, i as int);
    }
    let mut e: usize = n;
    while e > i && white_space(text.get_char(e - 1))
        invariant
            n == s.len(),
            s == text@,
            i <= e <= n,
            forall|k: int| e <= k < n ==> is_white_space(#[trigger] s[k]),
        decreases e,
    {
        e = e - 1;
    }
    proof {
        let t = s.skip(i as int);
        assert forall|k: int| e - i <= k < t.len() implies is_white_space(#[trigger] t[k]) by {
            assert(t[k] == s[k + i]);
        }
        lemma_trim_end(t, e - i);
        assert(t.take(e - i) =~= s.subrange(i as int, e as int));
    }
    String::from_str(text.substring_char(i, e))
}

// ---------------------------------------------------------------------------
// Prefixes and decimal numbers.
// ---------------------------------------------------------------------------

/// `prefix` is an initial part of `s`.
pub open spec fn has_prefix(s: Seq<char>, prefix: Seq<char>) -> bool {
    prefix.len() <= s.len() && s.take(prefix.len() as int) == prefix
}

/// Whether `text` begins with `prefix`.
pub fn starts_with(text: &str, prefix: &str) -> (r: bool)
    ensures
        r == has_prefix(text@, prefix@),
{
    let n = text.unicode_len();
    let m = prefix.unicode_len();
    if m > n {
        return false;
    }
    for k in 0..m
        invariant
            n == text@.len(),
            m == prefix@.len(),
            m <= n,
            forall|j: int| 0 <= j < k ==> text@[j] == prefix@[j],
    {
        if text.get_char(k) != prefix.get_char(k) {
            return false;
        }
    }
    assert(text@.take(m as int) =~= prefix@);
    true
}

/// The character of a decimal digit.
pub open spec fn digit_char(d: nat) -> char {
    if d == 0 {
        '0'
    } else if d == 1 {
        '1'
    } else if d == 2 {
        '2'
    } else if d == 3 {
        '3'
    } else if d == 4 {
        '4'
    } else if d == 5 {
        '5'
    } else if d == 6 {
        '6'
    } else if d == 7 {
        '7'
    } else if d == 8 {
        '8'
    } else {
        '9'
    }
}

/// The decimal notation of a number, without leading zeros.
pub open spec fn decimal(n: nat) -> Seq<char>
    decreases n,
{
    if n < 10 {
        seq![digit_char(n)]
    } else {
        decimal(n / 10).push(digit_char(n % 10))
    }
}

fn digit_str(d: u16) -> (r: &'static str)
    requires
        d < 10,
    ensures
        r@ == seq![digit_char(d as nat)],
{
    if d == 0 {
        proof { reveal_strlit("0"); }
        "0"
    } else if d == 1 {
        proof { reveal_strlit("1"); }
        "1"
    } else if d == 2 {
        proof { reveal_strlit("2"); }
        "2"
    } else if d == 3 {
        proof { reveal_strlit("3"); }
        "3"
    } else if d == 4 {
        proof { reveal_strlit("4"); }
        "4"
    } else if d == 5 {
        proof { reveal_strlit("5"); }
        "5"
    } else if d == 6 {
        proof { reveal_strlit("6"); }
        "6"
    } else if d == 7 {
        proof { reveal_strlit("7"); }
        "7"
    } else if d == 8 {
        proof { reveal_strlit("8"); }
        "8"
    } else {
        proof { reveal_strlit("9"); }
        "9"
    }
}

/// The decimal notation of a port number, as `{}` formats it.
pub fn decimal_string(n: u16) -> (r: String)
    ensures
        r@ == decimal(n as nat),
    decreases n,
{
    if n < 10 {
        String::from_str(digit_str(n))
    } else {
        let head = decimal_string(n / 10);
        head.concat(digit_str(n % 10))
    }
}

} // verus!
