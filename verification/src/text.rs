use vstd::prelude::*;

verus! {

broadcast use vstd::string::group_string_axioms;

// ---------------------------------------------------------------------------
// Character classes
// ---------------------------------------------------------------------------

/// Unicode `White_Space`: the characters that `char::is_whitespace` accepts,
/// which is also the class `\s` of the log-line grammar.
pub open spec fn is_white_space(c: char) -> bool {
    ||| ('\t' <= c && c <= '\r')
    ||| c == ' '
    ||| c == '\u{85}'
    ||| c == '\u{a0}'
    ||| c == '\u{1680}'
    ||| ('\u{2000}' <= c && c <= '\u{200a}')
    ||| c == '\u{2028}'
    ||| c == '\u{2029}'
    ||| c == '\u{202f}'
    ||| c == '\u{205f}'
    ||| c == '\u{3000}'
}

/// Unicode general category `Nd` (decimal number): the class `\d` of the
/// log-line grammar.
pub open spec fn is_decimal_digit(c: char) -> bool {
        ||| ('\u{30}' <= c && c <= '\u{39}')
        ||| ('\u{660}' <= c && c <= '\u{669}')
        ||| ('\u{6f0}' <= c && c <= '\u{6f9}')
        ||| ('\u{7c0}' <= c && c <= '\u{7c9}')
        ||| ('\u{966}' <= c && c <= '\u{96f}')
        ||| ('\u{9e6}' <= c && c <= '\u{9ef}')
        ||| ('\u{a66}' <= c && c <= '\u{a6f}')
        ||| ('\u{ae6}' <= c && c <= '\u{aef}')
        ||| ('\u{b66}' <= c && c <= '\u{b6f}')
        ||| ('\u{be6}' <= c && c <= '\u{bef}')
        ||| ('\u{c66}' <= c && c <= '\u{c6f}')
        ||| ('\u{ce6}' <= c && c <= '\u{cef}')
        ||| ('\u{d66}' <= c && c <= '\u{d6f}')
        ||| ('\u{de6}' <= c && c <= '\u{def}')
        ||| ('\u{e50}' <= c && c <= '\u{e59}')
        ||| ('\u{ed0}' <= c && c <= '\u{ed9}')
        ||| ('\u{f20}' <= c && c <= '\u{f29}')
        ||| ('\u{1040}' <= c && c <= '\u{1049}')
        ||| ('\u{1090}' <= c && c <= '\u{1099}')
        ||| ('\u{17e0}' <= c && c <= '\u{17e9}')
        ||| ('\u{1810}' <= c && c <= '\u{1819}')
        ||| ('\u{1946}' <= c && c <= '\u{194f}')
        ||| ('\u{19d0}' <= c && c <= '\u{19d9}')
        ||| ('\u{1a80}' <= c && c <= '\u{1a89}')
        ||| ('\u{1a90}' <= c && c <= '\u{1a99}')
        ||| ('\u{1b50}' <= c && c <= '\u{1b59}')
        ||| ('\u{1bb0}' <= c && c <= '\u{1bb9}')
        ||| ('\u{1c40}' <= c && c <= '\u{1c49}')
        ||| ('\u{1c50}' <= c && c <= '\u{1c59}')
        ||| ('\u{a620}' <= c && c <= '\u{a629}')
        ||| ('\u{a8d0}' <= c && c <= '\u{a8d9}')
        ||| ('\u{a900}' <= c && c <= '\u{a909}')
        ||| ('\u{a9d0}' <= c && c <= '\u{a9d9}')
        ||| ('\u{a9f0}' <= c && c <= '\u{a9f9}')
        ||| ('\u{aa50}' <= c && c <= '\u{aa59}')
        ||| ('\u{abf0}' <= c && c <= '\u{abf9}')
        ||| ('\u{ff10}' <= c && c <= '\u{ff19}')
        ||| ('\u{104a0}' <= c && c <= '\u{104a9}')
        ||| ('\u{10d30}' <= c && c <= '\u{10d39}')
        ||| ('\u{10d40}' <= c && c <= '\u{10d49}')
        ||| ('\u{11066}' <= c && c <= '\u{1106f}')
        ||| ('\u{110f0}' <= c && c <= '\u{110f9}')
        ||| ('\u{11136}' <= c && c <= '\u{1113f}')
        ||| ('\u{111d0}' <= c && c <= '\u{111d9}')
        ||| ('\u{112f0}' <= c && c <= '\u{112f9}')
        ||| ('\u{11450}' <= c && c <= '\u{11459}')
        ||| ('\u{114d0}' <= c && c <= '\u{114d9}')
        ||| ('\u{11650}' <= c && c <= '\u{11659}')
        ||| ('\u{116c0}' <= c && c <= '\u{116c9}')
        ||| ('\u{116d0}' <= c && c <= '\u{116e3}')
        ||| ('\u{11730}' <= c && c <= '\u{11739}')
        ||| ('\u{118e0}' <= c && c <= '\u{118e9}')
        ||| ('\u{11950}' <= c && c <= '\u{11959}')
        ||| ('\u{11bf0}' <= c && c <= '\u{11bf9}')
        ||| ('\u{11c50}' <= c && c <= '\u{11c59}')
        ||| ('\u{11d50}' <= c && c <= '\u{11d59}')
        ||| ('\u{11da0}' <= c && c <= '\u{11da9}')
        ||| ('\u{11f50}' <= c && c <= '\u{11f59}')
        ||| ('\u{16130}' <= c && c <= '\u{16139}')
        ||| ('\u{16a60}' <= c && c <= '\u{16a69}')
        ||| ('\u{16ac0}' <= c && c <= '\u{16ac9}')
        ||| ('\u{16b50}' <= c && c <= '\u{16b59}')
        ||| ('\u{16d70}' <= c && c <= '\u{16d79}')
        ||| ('\u{1ccf0}' <= c && c <= '\u{1ccf9}')
        ||| ('\u{1d7ce}' <= c && c <= '\u{1d7ff}')
        ||| ('\u{1e140}' <= c && c <= '\u{1e149}')
        ||| ('\u{1e2f0}' <= c && c <= '\u{1e2f9}')
        ||| ('\u{1e4f0}' <= c && c <= '\u{1e4f9}')
        ||| ('\u{1e5f1}' <= c && c <= '\u{1e5fa}')
        ||| ('\u{1e950}' <= c && c <= '\u{1e959}')
        ||| ('\u{1fbf0}' <= c && c <= '\u{1fbf9}')
}

pub fn white_space(c: char) -> (res: bool)
    ensures
        res == is_white_space(c),
{
    ('\t' <= c && c <= '\r') || c == ' ' || c == '\u{85}' || c == '\u{a0}' || c == '\u{1680}'
        || ('\u{2000}' <= c && c <= '\u{200a}') || c == '\u{2028}' || c == '\u{2029}'
        || c == '\u{202f}' || c == '\u{205f}' || c == '\u{3000}'
}

pub fn decimal_digit(c: char) -> (res: bool)
    ensures
        res == is_decimal_digit(c),
{
    ('\u{30}' <= c && c <= '\u{39}')
        || ('\u{660}' <= c && c <= '\u{669}')
        || ('\u{6f0}' <= c && c <= '\u{6f9}')
        || ('\u{7c0}' <= c && c <= '\u{7c9}')
        || ('\u{966}' <= c && c <= '\u{96f}')
        || ('\u{9e6}' <= c && c <= '\u{9ef}')
        || ('\u{a66}' <= c && c <= '\u{a6f}')
        || ('\u{ae6}' <= c && c <= '\u{aef}')
        || ('\u{b66}' <= c && c <= '\u{b6f}')
        || ('\u{be6}' <= c && c <= '\u{bef}')
        || ('\u{c66}' <= c && c <= '\u{c6f}')
        || ('\u{ce6}' <= c && c <= '\u{cef}')
        || ('\u{d66}' <= c && c <= '\u{d6f}')
        || ('\u{de6}' <= c && c <= '\u{def}')
        || ('\u{e50}' <= c && c <= '\u{e59}')
        || ('\u{ed0}' <= c && c <= '\u{ed9}')
        || ('\u{f20}' <= c && c <= '\u{f29}')
        || ('\u{1040}' <= c && c <= '\u{1049}')
        || ('\u{1090}' <= c && c <= '\u{1099}')
        || ('\u{17e0}' <= c && c <= '\u{17e9}')
        || ('\u{1810}' <= c && c <= '\u{1819}')
        || ('\u{1946}' <= c && c <= '\u{194f}')
        || ('\u{19d0}' <= c && c <= '\u{19d9}')
        || ('\u{1a80}' <= c && c <= '\u{1a89}')
        || ('\u{1a90}' <= c && c <= '\u{1a99}')
        || ('\u{1b50}' <= c && c <= '\u{1b59}')
        || ('\u{1bb0}' <= c && c <= '\u{1bb9}')
        || ('\u{1c40}' <= c && c <= '\u{1c49}')
        || ('\u{1c50}' <= c && c <= '\u{1c59}')
        || ('\u{a620}' <= c && c <= '\u{a629}')
        || ('\u{a8d0}' <= c && c <= '\u{a8d9}')
        || ('\u{a900}' <= c && c <= '\u{a909}')
        || ('\u{a9d0}' <= c && c <= '\u{a9d9}')
        || ('\u{a9f0}' <= c && c <= '\u{a9f9}')
        || ('\u{aa50}' <= c && c <= '\u{aa59}')
        || ('\u{abf0}' <= c && c <= '\u{abf9}')
        || ('\u{ff10}' <= c && c <= '\u{ff19}')
        || ('\u{104a0}' <= c && c <= '\u{104a9}')
        || ('\u{10d30}' <= c && c <= '\u{10d39}')
        || ('\u{10d40}' <= c && c <= '\u{10d49}')
        || ('\u{11066}' <= c && c <= '\u{1106f}')
        || ('\u{110f0}' <= c && c <= '\u{110f9}')
        || ('\u{11136}' <= c && c <= '\u{1113f}')
        || ('\u{111d0}' <= c && c <= '\u{111d9}')
        || ('\u{112f0}' <= c && c <= '\u{112f9}')
        || ('\u{11450}' <= c && c <= '\u{11459}')
        || ('\u{114d0}' <= c && c <= '\u{114d9}')
        || ('\u{11650}' <= c && c <= '\u{11659}')
        || ('\u{116c0}' <= c && c <= '\u{116c9}')
        || ('\u{116d0}' <= c && c <= '\u{116e3}')
        || ('\u{11730}' <= c && c <= '\u{11739}')
        || ('\u{118e0}' <= c && c <= '\u{118e9}')
        || ('\u{11950}' <= c && c <= '\u{11959}')
        || ('\u{11bf0}' <= c && c <= '\u{11bf9}')
        || ('\u{11c50}' <= c && c <= '\u{11c59}')
        || ('\u{11d50}' <= c && c <= '\u{11d59}')
        || ('\u{11da0}' <= c && c <= '\u{11da9}')
        || ('\u{11f50}' <= c && c <= '\u{11f59}')
        || ('\u{16130}' <= c && c <= '\u{16139}')
        || ('\u{16a60}' <= c && c <= '\u{16a69}')
        || ('\u{16ac0}' <= c && c <= '\u{16ac9}')
        || ('\u{16b50}' <= c && c <= '\u{16b59}')
        || ('\u{16d70}' <= c && c <= '\u{16d79}')
        || ('\u{1ccf0}' <= c && c <= '\u{1ccf9}')
        || ('\u{1d7ce}' <= c && c <= '\u{1d7ff}')
        || ('\u{1e140}' <= c && c <= '\u{1e149}')
        || ('\u{1e2f0}' <= c && c <= '\u{1e2f9}')
        || ('\u{1e4f0}' <= c && c <= '\u{1e4f9}')
        || ('\u{1e5f1}' <= c && c <= '\u{1e5fa}')
        || ('\u{1e950}' <= c && c <= '\u{1e959}')
        || ('\u{1fbf0}' <= c && c <= '\u{1fbf9}')
}


// ---------------------------------------------------------------------------
// Searching in sequences
// ---------------------------------------------------------------------------

/// `pat` occurs in `s` starting at index `i`.
pub open spec fn occurs_at<A>(s: Seq<A>, pat: Seq<A>, i: int) -> bool {
    0 <= i && i + pat.len() <= s.len() && s.subrange(i, i + pat.len()) == pat
}

/// `pat` occurs somewhere in `s` (what `str::contains` answers).
pub open spec fn contains_seq<A>(s: Seq<A>, pat: Seq<A>) -> bool {
    exists|i: int| occurs_at(s, pat, i)
}

/// `s` begins with `pat` (what `str::starts_with` answers).
pub open spec fn starts_with_seq<A>(s: Seq<A>, pat: Seq<A>) -> bool {
    occurs_at(s, pat, 0)
}

/// The index of the first occurrence of `pat` in `s`, if any.
pub open spec fn find_seq<A>(s: Seq<A>, pat: Seq<A>) -> Option<int>
    decreases s.len(),
{
    if s.len() < pat.len() {
        None
    } else if s.take(pat.len() as int) == pat {
        Some(0)
    } else if s.len() == 0 {
        None
    } else {
        match find_seq(s.drop_first(), pat) {
            Some(i) => Some(i + 1),
            None => None,
        }
    }
}

proof fn lemma_occurs_drop_first<A>(s: Seq<A>, pat: Seq<A>, j: int)
    requires
        s.len() > 0,
        j >= 0,
    ensures
        occurs_at(s.drop_first(), pat, j) == occurs_at(s, pat, j + 1),
{
    if 0 <= j && j + pat.len() <= s.len() - 1 {
        assert(s.drop_first().subrange(j, j + pat.len()) =~= s.subrange(j + 1, j + 1 + pat.len()));
    }
}

/// `find_seq` gives the first occurrence.
pub proof fn lemma_find_seq_first<A>(s: Seq<A>, pat: Seq<A>, i: int)
    requires
        occurs_at(s, pat, i),
        forall|j: int| 0 <= j < i ==> !occurs_at(s, pat, j),
    ensures
        find_seq(s, pat) == Some(i),
    decreases s.len(),
{
    assert(s.take(pat.len() as int) =~= s.subrange(0, pat.len() as int));
    if i > 0 {
        assert(!occurs_at(s, pat, 0));
        assert forall|j: int| 0 <= j < i - 1 implies !occurs_at(s.drop_first(), pat, j) by {
            lemma_occurs_drop_first(s, pat, j);
        }
        lemma_occurs_drop_first(s, pat, i - 1);
        lemma_find_seq_first(s.drop_first(), pat, i - 1);
    }
}

/// `find_seq` gives nothing when `pat` does not occur.
pub proof fn lemma_find_seq_none<A>(s: Seq<A>, pat: Seq<A>)
    requires
        forall|j: int| !occurs_at(s, pat, j),
    ensures
        find_seq(s, pat) is None,
    decreases s.len(),
{
    if s.len() >= pat.len() {
        assert(s.take(pat.len() as int) =~= s.subrange(0, pat.len() as int));
        assert(!occurs_at(s, pat, 0));
    }
    if s.len() >= pat.len() && s.len() > 0 {
        assert(!occurs_at(s, pat, 0));
        assert forall|j: int| !occurs_at(s.drop_first(), pat, j) by {
            if j >= 0 {
                lemma_occurs_drop_first(s, pat, j);
            }
        }
        lemma_find_seq_none(s.drop_first(), pat);
    }
}

/// What `find_seq` gives is the first occurrence, and `None` means none.
pub proof fn lemma_find_seq_occurs<A>(s: Seq<A>, pat: Seq<A>)
    ensures
        match find_seq(s, pat) {
            Some(i) => occurs_at(s, pat, i) && forall|j: int| 0 <= j < i ==> !occurs_at(s, pat, j),
            None => forall|j: int| !occurs_at(s, pat, j),
        },
    decreases s.len(),
{
    if s.len() >= pat.len() {
        assert(s.take(pat.len() as int) =~= s.subrange(0, pat.len() as int));
    }
    if s.len() < pat.len() {
    } else if s.take(pat.len() as int) == pat {
    } else if s.len() == 0 {
        assert(s.subrange(0, 0) =~= pat);
    } else {
        lemma_find_seq_occurs(s.drop_first(), pat);
        match find_seq(s.drop_first(), pat) {
            Some(i) => {
                lemma_occurs_drop_first(s, pat, i);
                assert forall|j: int| 0 <= j < i + 1 implies !occurs_at(s, pat, j) by {
                    if j > 0 {
                        lemma_occurs_drop_first(s, pat, j - 1);
                    }
                }
            },
            None => {
                assert forall|j: int| !occurs_at(s, pat, j) by {
                    if j > 0 {
                        lemma_occurs_drop_first(s, pat, j - 1);
                    }
                }
            },
        }
    }
}

/// Occurrences in a suffix are occurrences in the whole, shifted.
pub proof fn lemma_occurs_skip<A>(s: Seq<A>, pat: Seq<A>, k: int, j: int)
    requires
        0 <= k <= s.len(),
        j >= 0,
    ensures
        occurs_at(s.skip(k), pat, j) == occurs_at(s, pat, j + k),
{
    if j + pat.len() <= s.len() - k {
        assert(s.skip(k).subrange(j, j + pat.len()) =~= s.subrange(j + k, j + k + pat.len()));
    }
}

/// What `find_from` reports from `from` is `find_seq` on the suffix.
pub proof fn lemma_find_seq_skip<A>(s: Seq<A>, pat: Seq<A>, from: int, found: Option<int>)
    requires
        0 <= from <= s.len(),
        match found {
            Some(i) => from <= i && occurs_at(s, pat, i) && forall|j: int|
                from <= j < i ==> !occurs_at(s, pat, j),
            None => forall|j: int| from <= j ==> !occurs_at(s, pat, j),
        },
    ensures
        find_seq(s.skip(from), pat) == match found {
            Some(i) => Some(i - from),
            None => None::<int>,
        },
{
    match found {
        Some(i) => {
            assert forall|j: int| 0 <= j < i - from implies !occurs_at(s.skip(from), pat, j) by {
                lemma_occurs_skip(s, pat, from, j);
            }
            lemma_occurs_skip(s, pat, from, i - from);
            lemma_find_seq_first(s.skip(from), pat, i - from);
        },
        None => {
            assert forall|j: int| !occurs_at(s.skip(from), pat, j) by {
                if j >= 0 {
                    lemma_occurs_skip(s, pat, from, j);
                }
            }
            lemma_find_seq_none(s.skip(from), pat);
        },
    }
}

/// Does `pat` occur in `hay` at index `i`?
pub fn matches_at(hay: &Vec<char>, pat: &Vec<char>, i: usize) -> (res: bool)
    ensures
        res == occurs_at(hay@, pat@, i as int),
{
    if i > hay.len() || pat.len() > hay.len() - i {
        return false;
    }
    let mut k: usize = 0;
    while k < pat.len()
        invariant
            i + pat.len() <= hay.len(),
            k <= pat.len(),
            forall|m: int| 0 <= m < k ==> hay@[i + m] == pat@[m],
        decreases pat.len() - k,
    {
        if hay[i + k] != pat[k] {
            assert(hay@.subrange(i as int, i + pat.len())[k as int] != pat@[k as int]);
            return false;
        }
        k += 1;
    }
    assert(hay@.subrange(i as int, i + pat.len()) =~= pat@);
    true
}

/// The first occurrence of `pat` in `hay` at or after `from`.
pub fn find_from(hay: &Vec<char>, pat: &Vec<char>, from: usize) -> (res: Option<usize>)
    ensures
        match res {
            Some(i) => from <= i && occurs_at(hay@, pat@, i as int) && forall|j: int|
                from <= j < i ==> !occurs_at(hay@, pat@, j),
            None => forall|j: int| from <= j ==> !occurs_at(hay@, pat@, j),
        },
{
    let mut i = from;
    while i < hay.len()
        invariant
            from <= i,
            forall|j: int| from <= j < i ==> !occurs_at(hay@, pat@, j),
        decreases hay.len() - i,
    {
        if matches_at(hay, pat, i) {
            return Some(i);
        }
        i += 1;
    }
    if matches_at(hay, pat, i) {
        return Some(i);
    }
    None
}

/// Does `pat` occur anywhere in `hay`?
pub fn contains(hay: &Vec<char>, pat: &str) -> (res: bool)
    ensures
        res == contains_seq(hay@, pat@),
{
    let p = chars_of(pat);
    match find_from(hay, &p, 0) {
        Some(i) => true,
        None => false,
    }
}

/// Does `hay` begin with `pat`?
pub fn starts_with(hay: &Vec<char>, pat: &str) -> (res: bool)
    ensures
        res == starts_with_seq(hay@, pat@),
{
    let p = chars_of(pat);
    matches_at(hay, &p, 0)
}

// ---------------------------------------------------------------------------
// Strings and characters
// ---------------------------------------------------------------------------

/// The characters of `s`, in order.
pub fn chars_of(s: &str) -> (res: Vec<char>)
    ensures
        res@ == s@,
{
    let mut res: Vec<char> = Vec::new();
    for c in it: s.chars()
        invariant
            res@ == it.seq().take(it.index() as int),
    {
        res.push(c);
    }
    res
}

/// Appends one character: `String::push`.
#[verifier::external_body]
pub(crate) fn push_char(s: &mut String, c: char)
    ensures
        final(s)@ == old(s)@.push(c),
{
    s.push(c);
}

/// Appends the characters `v[from..to]`.
pub fn push_chars(s: &mut String, v: &Vec<char>, from: usize, to: usize)
    requires
        from <= to <= v.len(),
    ensures
        final(s)@ == old(s)@ + v@.subrange(from as int, to as int),
{
    let mut i = from;
    while i < to
        invariant
            from <= i <= to <= v.len(),
            s@ == old(s)@ + v@.subrange(from as int, i as int),
        decreases to - i,
    {
        push_char(s, v[i]);
        i += 1;
        assert(v@.subrange(from as int, i as int) =~= v@.subrange(from as int, i - 1).push(v@[i - 1]));
    }
}

/// The string made of `v[from..to]`.
pub fn string_of(v: &Vec<char>, from: usize, to: usize) -> (res: String)
    requires
        from <= to <= v.len(),
    ensures
        res@ == v@.subrange(from as int, to as int),
{
    let mut s = String::new();
    push_chars(&mut s, v, from, to);
    s
}

// ---------------------------------------------------------------------------
// Decimal numbers
// ---------------------------------------------------------------------------

/// The digit character for `d < 10`.
pub open spec fn digit_char(d: nat) -> char {
    if d == 0 { '0' }
    else if d == 1 { '1' }
    else if d == 2 { '2' }
    else if d == 3 { '3' }
    else if d == 4 { '4' }
    else if d == 5 { '5' }
    else if d == 6 { '6' }
    else if d == 7 { '7' }
    else if d == 8 { '8' }
    else { '9' }
}

/// The decimal representation of `n`, without leading zeros (what `Display`
/// prints for an unsigned integer).
pub open spec fn decimal(n: nat) -> Seq<char>
    decreases n,
{
    if n < 10 {
        seq![digit_char(n)]
    } else {
        decimal(n / 10).push(digit_char(n % 10))
    }
}

/// `c` is one of the digits `0` to `9`.
pub open spec fn is_ascii_digit(c: char) -> bool {
    '0' <= c && c <= '9'
}

/// The number that a run of the digits `0` to `9` writes in base ten.
pub open spec fn decimal_value(digits: Seq<char>) -> int
    decreases digits.len(),
{
    if digits.len() == 0 {
        0
    } else {
        decimal_value(digits.drop_last()) * 10 + (digits.last() as int - '0' as int)
    }
}

proof fn lemma_digit_char_value(d: nat)
    requires
        d < 10,
    ensures
        is_ascii_digit(digit_char(d)),
        digit_char(d) as int - '0' as int == d,
{
}

/// Reading the decimal representation of `n` back gives `n`: it is a
/// non-empty run of digits whose value is `n`.
pub proof fn lemma_decimal_reads_back(n: nat)
    ensures
        decimal(n).len() > 0,
        forall|k: int| 0 <= k < decimal(n).len() ==> is_ascii_digit(#[trigger] decimal(n)[k]),
        decimal_value(decimal(n)) == n,
    decreases n,
{
    if n < 10 {
        lemma_digit_char_value(n);
        let d = decimal(n);
        assert(d.drop_last() =~= Seq::<char>::empty());
        assert(decimal_value(d.drop_last()) == 0);
        assert(d.last() == digit_char(n));
        assert(decimal_value(d) == n);
    } else {
        lemma_decimal_reads_back(n / 10);
        lemma_digit_char_value(n % 10);
        let d = decimal(n);
        assert(d.drop_last() =~= decimal(n / 10));
        assert(d.last() == digit_char(n % 10));
        assert(decimal_value(d) == decimal_value(d.drop_last()) * 10 + (d.last() as int - '0' as int));
        assert(decimal_value(d) == (n / 10) * 10 + n % 10);
        assert(n == (n / 10) * 10 + n % 10);
    }
}

/// The decimal representation of a signed integer (what `Display` prints).
pub open spec fn signed_decimal(n: int) -> Seq<char> {
    if n < 0 {
        seq!['-'] + decimal((-n) as nat)
    } else {
        decimal(n as nat)
    }
}

fn digit(d: u64) -> (c: char)
    requires
        d < 10,
    ensures
        c == digit_char(d as nat),
{
    if d == 0 { '0' }
    else if d == 1 { '1' }
    else if d == 2 { '2' }
    else if d == 3 { '3' }
    else if d == 4 { '4' }
    else if d == 5 { '5' }
    else if d == 6 { '6' }
    else if d == 7 { '7' }
    else if d == 8 { '8' }
    else { '9' }
}

/// Appends the decimal representation of `n`.
pub fn push_decimal(s: &mut String, n: u64)
    ensures
        final(s)@ == old(s)@ + decimal(n as nat),
    decreases n,
{
    if n >= 10 {
        push_decimal(s, n / 10);
    }
    push_char(s, digit(n % 10));
    assert(s@ =~= old(s)@ + decimal(n as nat));
}

/// Appends the decimal representation of the signed `n`.
pub fn push_signed_decimal(s: &mut String, n: i64)
    ensures
        final(s)@ == old(s)@ + signed_decimal(n as int),
{
    if n < 0 {
        push_char(s, '-');
        let m: u64 = if n == i64::MIN {
            9223372036854775808u64
        } else {
            (-n) as u64
        };
        push_decimal(s, m);
        assert(s@ =~= old(s)@ + signed_decimal(n as int));
    } else {
        push_decimal(s, n as u64);
    }
}

// ---------------------------------------------------------------------------
// Trimming
// ---------------------------------------------------------------------------

/// `s` without its leading white space.
pub open spec fn trim_start(s: Seq<char>) -> Seq<char>
    decreases s.len(),
{
    if s.len() > 0 && is_white_space(s[0]) {
        trim_start(s.drop_first())
    } else {
        s
    }
}

/// `s` without its trailing white space.
pub open spec fn trim_end(s: Seq<char>) -> Seq<char>
    decreases s.len(),
{
    if s.len() > 0 && is_white_space(s.last()) {
        trim_end(s.drop_last())
    } else {
        s
    }
}

/// `s` without leading and trailing white space (what `str::trim` gives).
pub open spec fn trim(s: Seq<char>) -> Seq<char> {
    trim_end(trim_start(s))
}

proof fn lemma_trim_start(s: Seq<char>, lo: int, hi: int, k: int)
    requires
        0 <= lo <= k <= hi <= s.len(),
        forall|j: int| lo <= j < k ==> is_white_space(s[j]),
        k == hi || !is_white_space(s[k]),
    ensures
        trim_start(s.subrange(lo, hi)) == s.subrange(k, hi),
    decreases k - lo,
{
    if lo < k {
        assert(s.subrange(lo, hi).drop_first() =~= s.subrange(lo + 1, hi));
        lemma_trim_start(s, lo + 1, hi, k);
    } else {
        assert(s.subrange(lo, hi) =~= s.subrange(k, hi));
    }
}

proof fn lemma_trim_end(s: Seq<char>, lo: int, hi: int, k: int)
    requires
        0 <= lo <= k <= hi <= s.len(),
        forall|j: int| k <= j < hi ==> is_white_space(s[j]),
        k == lo || !is_white_space(s[k - 1]),
    ensures
        trim_end(s.subrange(lo, hi)) == s.subrange(lo, k),
    decreases hi - k,
{
    if k < hi {
        assert(s.subrange(lo, hi).drop_last() =~= s.subrange(lo, hi - 1));
        lemma_trim_end(s, lo, hi - 1, k);
    } else {
        assert(s.subrange(lo, hi) =~= s.subrange(lo, k));
    }
}

proof fn lemma_trim_start_shape(s: Seq<char>) -> (k: int)
    ensures
        0 <= k <= s.len(),
        trim_start(s) == s.skip(k),
        k < s.len() ==> !is_white_space(s[k]),
    decreases s.len(),
{
    if s.len() > 0 && is_white_space(s[0]) {
        let k = lemma_trim_start_shape(s.drop_first());
        assert(s.drop_first().skip(k) =~= s.skip(k + 1));
        k + 1
    } else {
        assert(s.skip(0) =~= s);
        0
    }
}

proof fn lemma_trim_end_shape(s: Seq<char>) -> (k: int)
    ensures
        0 <= k <= s.len(),
        trim_end(s) == s.take(k),
        k > 0 ==> !is_white_space(s[k - 1]),
    decreases s.len(),
{
    if s.len() > 0 && is_white_space(s.last()) {
        let k = lemma_trim_end_shape(s.drop_last());
        assert(s.drop_last().take(k) =~= s.take(k));
        k
    } else {
        assert(s.take(s.len() as int) =~= s);
        s.len() as int
    }
}

/// `trim(s)` is a piece of `s` that neither begins nor ends with white space.
pub proof fn lemma_trim_shape(s: Seq<char>) -> (bounds: (int, int))
    ensures
        0 <= bounds.0 <= bounds.1 <= s.len(),
        trim(s) == s.subrange(bounds.0, bounds.1),
        trim(s).len() > 0 ==> !is_white_space(trim(s)[0]) && !is_white_space(trim(s).last()),
{
    let a = lemma_trim_start_shape(s);
    let b = lemma_trim_end_shape(s.skip(a));
    assert(s.skip(a).take(b) =~= s.subrange(a, a + b));
    (a, a + b)
}

/// The bounds of `trim(v[from..to])` within `v`.
pub fn trim_bounds(v: &Vec<char>, from: usize, to: usize) -> (res: (usize, usize))
    requires
        from <= to <= v.len(),
    ensures
        from <= res.0 <= res.1 <= to,
        v@.subrange(res.0 as int, res.1 as int) == trim(v@.subrange(from as int, to as int)),
{
    let mut lo = from;
    while lo < to && white_space(v[lo])
        invariant
            from <= lo <= to <= v.len(),
            forall|j: int| from <= j < lo ==> is_white_space(v@[j]),
        decreases to - lo,
    {
        lo += 1;
    }
    let mut hi = to;
    while hi > lo && white_space(v[hi - 1])
        invariant
            lo <= hi <= to <= v.len(),
            forall|j: int| hi <= j < to ==> is_white_space(v@[j]),
        decreases hi,
    {
        hi -= 1;
    }
    proof {
        lemma_trim_start(v@, from as int, to as int, lo as int);
        lemma_trim_end(v@, lo as int, to as int, hi as int);
    }
    (lo, hi)
}

} // verus!
