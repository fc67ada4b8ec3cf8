use vstd::prelude::*;

verus! {

/// The pieces of `s` between occurrences of `sep`, as `str::split` yields them:
/// always at least one piece, empty pieces kept.
pub open spec fn split_on(s: Seq<char>, sep: char) -> Seq<Seq<char>>
    decreases s.len(),
{
    if s.len() == 0 {
        seq![Seq::empty()]
    } else {
        let prev = split_on(s.drop_last(), sep);
        if s.last() == sep {
            prev.push(Seq::empty())
        } else {
            prev.update(prev.len() - 1, prev.last().push(s.last()))
        }
    }
}

/// The character sequences held by a sequence of strings.
pub open spec fn texts(v: Seq<String>) -> Seq<Seq<char>> {
    v.map_values(|p: String| p@)
}

pub proof fn lemma_split_on_nonempty(s: Seq<char>, sep: char)
    ensures
        split_on(s, sep).len() >= 1,
    decreases s.len(),
{
    if s.len() > 0 {
        lemma_split_on_nonempty(s.drop_last(), sep);
    }
}

pub open spec fn is_digit(c: char) -> bool {
    '0' <= c && c <= '9'
}

pub open spec fn digits_value(s: Seq<char>) -> int
    decreases s.len(),
{
    if s.len() == 0 {
        0
    } else {
        digits_value(s.drop_last()) * 10 + (s.last() as int - '0' as int)
    }
}

pub open spec fn all_digits(s: Seq<char>) -> bool {
    forall|i: int| 0 <= i < s.len() ==> is_digit(#[trigger] s[i])
}

/// The text after an optional leading `+`.
pub open spec fn unsigned_part(s: Seq<char>) -> Seq<char> {
    if s.len() > 0 && s[0] == '+' {
        s.drop_first()
    } else {
        s
    }
}

/// The value of `s` read as an unsigned 64-bit decimal number: an optional `+`,
/// then one or more ASCII digits, with a value that fits in 64 bits.
pub open spec fn decimal_of(s: Seq<char>) -> Option<int> {
    let d = unsigned_part(s);
    if d.len() > 0 && all_digits(d) && digits_value(d) <= u64::MAX {
        Some(digits_value(d))
    } else {
        None
    }
}

proof fn lemma_digits_value_grows(s: Seq<char>, k: int)
    requires
        all_digits(s),
        0 <= k <= s.len(),
    ensures
        0 <= digits_value(s.subrange(0, k)) <= digits_value(s),
    decreases s.len(),
{
    if s.len() > 0 {
        let p = s.drop_last();
        assert(all_digits(p)) by {
            assert forall|i: int| 0 <= i < p.len() implies is_digit(#[trigger] p[i]) by {
                assert(p[i] == s[i]);
            }
        }
        assert(is_digit(s[s.len() - 1]));
        if k == s.len() {
            assert(s.subrange(0, k) =~= s);
            lemma_digits_value_grows(p, k - 1);
            assert(p.subrange(0, k - 1) =~= p);
        } else {
            lemma_digits_value_grows(p, k);
            assert(p.subrange(0, k) =~= s.subrange(0, k));
            lemma_digits_value_grows(p, p.len() as int);
            assert(p.subrange(0, p.len() as int) =~= p);
        }
    } else {
        assert(s.subrange(0, k) =~= s);
    }
}

/// Reads `s` as an unsigned decimal number, as `u64::from_str` does.
pub fn parse_u64(s: &str) -> (r: Option<u64>)
    ensures
        match r {
            Some(v) => decimal_of(s@) == Some(v as int),
            None => decimal_of(s@) is None,
        },
{
    let n = s.unicode_len();
    let start: usize = if n > 0 && s.get_char(0) == '+' { 1 } else { 0 };
    let ghost d = unsigned_part(s@);
    assert(d =~= s@.subrange(start as int, n as int));
    if start == n {
        return None;
    }
    let mut value: u64 = 0;
    let mut k: usize = start;
    while k < n
        invariant
            start <= k <= n,
            n == s@.len(),
            d == s@.subrange(start as int, n as int),
            d == unsigned_part(s@),
            value as int == digits_value(d.subrange(0, k - start)),
            all_digits(d.subrange(0, k - start)),
        decreases n - k,
    {
        let c = s.get_char(k);
        let ghost prefix = d.subrange(0, k - start);
        let ghost next = d.subrange(0, k + 1 - start);
        assert(next.drop_last() =~= prefix);
        assert(next.last() == c);
        assert(c == d[k - start]);
        if !('0' <= c && c <= '9') {
            assert(d[k - start] == s@[k as int]);
            assert(!is_digit(d[k - start]));

            return None;
        }
        let digit = (c as u32 - '0' as u32) as u64;
        assert(all_digits(next)) by {
            assert forall|i: int| 0 <= i < next.len() implies is_digit(#[trigger] next[i]) by {
                if i < prefix.len() {
                    assert(next[i] == prefix[i]);
                }
            }
        }
        if value > (u64::MAX - digit) / 10 {
            assert(digits_value(next) == value * 10 + digit);
            assert(value * 10 + digit > u64::MAX) by (nonlinear_arith)
                requires
                    value > (u64::MAX - digit) / 10,
                    digit <= 9,
            ;
            proof {
                if all_digits(d) {
                    lemma_digits_value_grows(d, k + 1 - start);
                }
            }
            return None;
        }
        value = value * 10 + digit;
        k = k + 1;
    }
    assert(d.subrange(0, n - start) =~= d);
    Some(value)
}

/// Splits `s` at every occurrence of `sep`, as `str::split` does.
pub fn split_text(s: &str, sep: char) -> (r: Vec<String>)
    ensures
        texts(r@) == split_on(s@, sep),
{
    let n = s.unicode_len();
    let mut pieces: Vec<String> = Vec::new();
    let mut start: usize = 0;
    let mut i: usize = 0;
    assert(s@.subrange(0, 0) =~= Seq::<char>::empty());
    assert(texts(pieces@) =~= Seq::<Seq<char>>::empty());
    assert(split_on(Seq::<char>::empty(), sep) == seq![Seq::<char>::empty()]);
    assert(texts(pieces@).push(s@.subrange(0, 0)) =~= seq![Seq::<char>::empty()]);
    while i < n
        invariant
            start <= i <= n,
            n == s@.len(),
            split_on(s@.subrange(0, i as int), sep) == texts(pieces@).push(
                s@.subrange(start as int, i as int),
            ),
        decreases n - i,
    {
        let c = s.get_char(i);
        let ghost before = s@.subrange(0, i as int);
        let ghost after = s@.subrange(0, i + 1);
        assert(after.drop_last() =~= before);
        assert(after.last() == c);
        if c == sep {
            let piece = String::from_str(s.substring_char(start, i));
            let ghost old_pieces = pieces@;
            pieces.push(piece);
            assert(texts(pieces@) =~= texts(old_pieces).push(piece@));
            assert(s@.subrange((i + 1) as int, (i + 1) as int) =~= Seq::<char>::empty());
        } else {
            assert(s@.subrange(start as int, i + 1) =~= s@.subrange(start as int, i as int).push(c));
        }
        i = i + 1;
        if c == sep {
            start = i;
        }
    }
    let piece = String::from_str(s.substring_char(start, n));
    let ghost old_pieces = pieces@;
    pieces.push(piece);
    assert(texts(pieces@) =~= texts(old_pieces).push(piece@));
    assert(s@.subrange(0, n as int) =~= s@);
    pieces
}

/// One line of text as the display's text layout holds it: its words split at
/// single spaces.
pub fn render_line(line: &str) -> (r: Vec<String>)
    ensures
        texts(r@) == split_on(line@, ' '),
{
    split_text(line, ' ')
}

/// Text of any number of lines, each split into its words.
pub fn render_text(text: &str) -> (r: Vec<Vec<String>>)
    ensures
        r@.len() == split_on(text@, '\n').len(),
        forall|i: int|
            0 <= i < r@.len() ==> texts(#[trigger] r@[i]@) == split_on(split_on(text@, '\n')[i], ' '),
{
    let lines = split_text(text, '\n');
    let mut out: Vec<Vec<String>> = Vec::new();
    let mut i: usize = 0;
    while i < lines.len()
        invariant
            i <= lines@.len(),
            texts(lines@) == split_on(text@, '\n'),
            out@.len() == i,
            forall|j: int|
                0 <= j < i ==> texts(#[trigger] out@[j]@) == split_on(lines@[j]@, ' '),
        decreases lines.len() - i,
    {
        let words = render_line(lines[i].as_str());
        out.push(words);
        i = i + 1;
    }
    proof {
        assert forall|j: int| 0 <= j < out@.len() implies texts(#[trigger] out@[j]@) == split_on(
            split_on(text@, '\n')[j],
            ' ',
        ) by {
            assert(texts(lines@)[j] == lines@[j]@);
        }
    }
    out
}

} // verus!
