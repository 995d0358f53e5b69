use vstd::prelude::*;

verus! {

// ---------------------------------------------------------------------------
// Bridging between `str`/`String` and `Vec<char>`
//
// All of the crate's text processing is done over `Vec<char>`, whose view is
// the same `Seq<char>` as the view of the string it came from, so contracts
// can be stated uniformly over `Seq<char>`.
// ---------------------------------------------------------------------------

/// Relies on str::chars: yields the characters of the string in order.
#[verifier::external_body]
pub(crate) fn chars_vec(s: &str) -> (r: Vec<char>)
    ensures
        r@ == s@,
{
    s.chars().collect()
}

/// Relies on String's FromIterator<char>: collects the characters in order.
#[verifier::external_body]
pub(crate) fn chars_to_string(v: &Vec<char>) -> (r: String)
    ensures
        r@ == v@,
{
    v.iter().collect()
}

/// Appends every character of `s` to `out`.
pub fn append_chars(out: &mut Vec<char>, s: &Vec<char>)
    ensures
        final(out)@ == old(out)@ + s@,
{
    let mut i: usize = 0;
    while i < s.len()
        invariant
            i <= s.len(),
            out@ == old(out)@ + s@.subrange(0, i as int),
        decreases s.len() - i,
    {
        out.push(s[i]);
        i = i + 1;
    }
    assert(s@.subrange(0, s.len() as int) == s@);
}

/// Appends the characters of a string slice to `out`.
pub fn push_str_chars(out: &mut Vec<char>, s: &str)
    ensures
        final(out)@ == old(out)@ + s@,
{
    let v = chars_vec(s);
    append_chars(out, &v);
}

// ---------------------------------------------------------------------------
// Decimal digits
// ---------------------------------------------------------------------------

pub open spec fn spec_digit_char(d: int) -> char {
    ((48 + d) as u8) as char
}

pub open spec fn spec_is_digit(c: char) -> bool {
    48 <= c as int <= 57
}

pub open spec fn spec_digit_val(c: char) -> int {
    c as int - 48
}

/// The canonical decimal form of a natural number: no sign, no leading zeros.
pub open spec fn spec_dec_nat(n: nat) -> Seq<char>
    decreases n,
{
    if n < 10 {
        seq![spec_digit_char(n as int)]
    } else {
        spec_dec_nat(n / 10) + seq![spec_digit_char((n % 10) as int)]
    }
}

/// The canonical decimal form of an integer: a '-' sign for negatives.
pub open spec fn spec_dec_int(n: int) -> Seq<char> {
    if n < 0 {
        seq!['-'] + spec_dec_nat((-n) as nat)
    } else {
        spec_dec_nat(n as nat)
    }
}

pub fn digit_char(d: u64) -> (c: char)
    requires
        d < 10,
    ensures
        c == spec_digit_char(d as int),
{
    (48u8 + (d as u8)) as char
}

/// Appends the canonical decimal form of `n` to `out`.
pub fn push_u64(out: &mut Vec<char>, n: u64)
    ensures
        final(out)@ == old(out)@ + spec_dec_nat(n as nat),
    decreases n,
{
    if n < 10 {
        out.push(digit_char(n));
    } else {
        push_u64(out, n / 10);
        out.push(digit_char(n % 10));
    }
}

/// Appends the canonical decimal form of `n` to `out`, with a sign if negative.
pub fn push_i64(out: &mut Vec<char>, n: i64)
    ensures
        final(out)@ == old(out)@ + spec_dec_int(n as int),
{
    if n < 0 {
        out.push('-');
        // i64::MIN cannot occur on the wire (only i32 values are encoded), but
        // handle it without overflow anyway by going through u64.
        let m: u64 = if n == i64::MIN {
            9223372036854775808u64
        } else {
            (-n) as u64
        };
        assert(m as nat == (-(n as int)) as nat);
        push_u64(out, m);
    } else {
        push_u64(out, (n) as u64);
    }
}

// Every character of a canonical decimal form is a digit.
pub proof fn lemma_dec_nat_digits(n: nat)
    ensures
        spec_dec_nat(n).len() >= 1,
        forall|i: int|
            0 <= i < spec_dec_nat(n).len() ==> spec_is_digit(#[trigger] spec_dec_nat(n)[i]),
    decreases n,
{
    if n >= 10 {
        lemma_dec_nat_digits(n / 10);
    }
}

// ---------------------------------------------------------------------------
// Hexadecimal
// ---------------------------------------------------------------------------

pub open spec fn spec_hex_digit(d: int) -> char {
    if d < 10 {
        spec_digit_char(d)
    } else {
        ((87 + d) as u8) as char
    }
}

pub open spec fn spec_is_hex_digit(c: char) -> bool {
    spec_is_digit(c) || 97 <= c as int <= 102
}

/// Lowercase hex encoding of a byte sequence: two digits per byte.
pub open spec fn spec_hex_of(b: Seq<u8>) -> Seq<char>
    decreases b.len(),
{
    if b.len() == 0 {
        Seq::empty()
    } else {
        seq![
            spec_hex_digit(b[0] as int / 16),
            spec_hex_digit(b[0] as int % 16),
        ] + spec_hex_of(b.skip(1))
    }
}

pub proof fn lemma_hex_of_len(b: Seq<u8>)
    ensures
        spec_hex_of(b).len() == 2 * b.len(),
    decreases b.len(),
{
    if b.len() > 0 {
        lemma_hex_of_len(b.skip(1));
    }
}

pub proof fn lemma_hex_of_digits(b: Seq<u8>)
    ensures
        forall|i: int|
            0 <= i < spec_hex_of(b).len() ==> spec_is_hex_digit(#[trigger] spec_hex_of(b)[i]),
    decreases b.len(),
{
    if b.len() > 0 {
        lemma_hex_of_digits(b.skip(1));
        assert forall|i: int| 0 <= i < spec_hex_of(b).len() implies spec_is_hex_digit(
            #[trigger] spec_hex_of(b)[i],
        ) by {
            let d0 = b[0] as int / 16;
            let d1 = b[0] as int % 16;
            assert(0 <= d0 < 16 && 0 <= d1 < 16);
            if i >= 2 {
                assert(spec_hex_of(b)[i] == spec_hex_of(b.skip(1))[i - 2]);
            }
        }
    }
}

fn hex_digit(d: u8) -> (c: char)
    requires
        d < 16,
    ensures
        c == spec_hex_digit(d as int),
{
    if d < 10 {
        (48u8 + d) as char
    } else {
        (87u8 + d) as char
    }
}

/// Lowercase hex encoding of a byte slice.
pub fn hex_encode(b: &[u8]) -> (r: String)
    ensures
        r@ == spec_hex_of(b@),
{
    let mut out: Vec<char> = Vec::new();
    let mut i: usize = 0;
    while i < b.len()
        invariant
            i <= b@.len(),
            out@ == spec_hex_of(b@.subrange(0, i as int)),
        decreases b@.len() - i,
    {
        let byte = b[i];
        out.push(hex_digit(byte / 16));
        out.push(hex_digit(byte % 16));
        proof {
            lemma_hex_of_snoc(b@, i as int);
        }
        i = i + 1;
    }
    assert(b@.subrange(0, b@.len() as int) == b@);
    chars_to_string(&out)
}

proof fn lemma_hex_of_snoc(b: Seq<u8>, i: int)
    requires
        0 <= i < b.len(),
    ensures
        spec_hex_of(b.subrange(0, i + 1)) == spec_hex_of(b.subrange(0, i)) + seq![
            spec_hex_digit(b[i] as int / 16),
            spec_hex_digit(b[i] as int % 16),
        ],
    decreases i,
{
    let pre = b.subrange(0, i + 1);
    if i == 0 {
        assert(pre.skip(1) =~= Seq::<u8>::empty());
        assert(b.subrange(0, 0) =~= Seq::<u8>::empty());
        assert(spec_hex_of(pre) =~= seq![
            spec_hex_digit(b[0] as int / 16),
            spec_hex_digit(b[0] as int % 16),
        ]);
    } else {
        lemma_hex_of_snoc(b.skip(1), i - 1);
        assert(pre.skip(1) =~= b.skip(1).subrange(0, i));
        assert(b.subrange(0, i).skip(1) =~= b.skip(1).subrange(0, i - 1));
        assert(pre[0] == b[0]);
        assert(b.subrange(0, i)[0] == b[0]);
        assert(b.skip(1)[i - 1] == b[i]);
        assert(spec_hex_of(pre) =~= spec_hex_of(b.subrange(0, i)) + seq![
            spec_hex_digit(b[i] as int / 16),
            spec_hex_digit(b[i] as int % 16),
        ]);
    }
}

// ---------------------------------------------------------------------------
// Common sequence predicates
// ---------------------------------------------------------------------------

pub open spec fn starts_with(s: Seq<char>, prefix: Seq<char>) -> bool {
    s.len() >= prefix.len() && s.subrange(0, prefix.len() as int) == prefix
}

/// ASCII lowercasing of a single character; other characters are unchanged.
pub open spec fn spec_ascii_lower_char(c: char) -> char {
    if 65 <= c as int <= 90 {
        ((c as int) + 32) as char
    } else {
        c
    }
}

pub open spec fn spec_ascii_lower(s: Seq<char>) -> Seq<char> {
    s.map_values(|c: char| spec_ascii_lower_char(c))
}

/// Whether a character vector spells exactly the given string.
pub fn chars_eq_str(a: &Vec<char>, b: &str) -> (r: bool)
    ensures
        r == (a@ == b@),
{
    let bv = chars_vec(b);
    if a.len() != bv.len() {
        return false;
    }
    let mut k: usize = 0;
    while k < a.len()
        invariant
            k <= a@.len(),
            a@.len() == bv@.len(),
            bv@ == b@,
            forall|m: int| 0 <= m < k ==> a@[m] == bv@[m],
        decreases a@.len() - k,
    {
        if a[k] != bv[k] {
            return false;
        }
        k = k + 1;
    }
    proof {
        assert(a@ =~= b@);
    }
    true
}

/// ASCII lowercasing of one character.
pub fn ascii_lower_char(c: char) -> (r: char)
    ensures
        r == spec_ascii_lower_char(c),
{
    if c == 'A' {
        'a'
    } else if c == 'B' {
        'b'
    } else if c == 'C' {
        'c'
    } else if c == 'D' {
        'd'
    } else if c == 'E' {
        'e'
    } else if c == 'F' {
        'f'
    } else if c == 'G' {
        'g'
    } else if c == 'H' {
        'h'
    } else if c == 'I' {
        'i'
    } else if c == 'J' {
        'j'
    } else if c == 'K' {
        'k'
    } else if c == 'L' {
        'l'
    } else if c == 'M' {
        'm'
    } else if c == 'N' {
        'n'
    } else if c == 'O' {
        'o'
    } else if c == 'P' {
        'p'
    } else if c == 'Q' {
        'q'
    } else if c == 'R' {
        'r'
    } else if c == 'S' {
        's'
    } else if c == 'T' {
        't'
    } else if c == 'U' {
        'u'
    } else if c == 'V' {
        'v'
    } else if c == 'W' {
        'w'
    } else if c == 'X' {
        'x'
    } else if c == 'Y' {
        'y'
    } else if c == 'Z' {
        'z'
    } else {
        c
    }
}

/// ASCII lowercasing of a character vector.
pub fn ascii_lower(s: &Vec<char>) -> (r: Vec<char>)
    ensures
        r@ == spec_ascii_lower(s@),
{
    let mut out: Vec<char> = Vec::new();
    let mut i: usize = 0;
    while i < s.len()
        invariant
            i <= s@.len(),
            out@ == spec_ascii_lower(s@.subrange(0, i as int)),
        decreases s@.len() - i,
    {
        let c = s[i];
        let lc: char = ascii_lower_char(c);
        out.push(lc);
        assert(spec_ascii_lower(s@.subrange(0, i + 1 as int)) =~= spec_ascii_lower(
            s@.subrange(0, i as int),
        ).push(spec_ascii_lower_char(s@[i as int])));
        i = i + 1;
    }
    assert(s@.subrange(0, s@.len() as int) == s@);
    out
}


/// The value a lowercase hexadecimal digit stands for.
pub open spec fn spec_hex_val(c: char) -> int {
    if spec_is_digit(c) {
        c as int - 48
    } else {
        c as int - 87
    }
}

/// The code point of a control character, as a byte.
pub fn char_code_lt32(c: char) -> (v: u8)
    requires
        (c as int) < 32,
    ensures
        v as int == c as int,
{
    if c == '\u{0}' {
        0u8
    } else if c == '\u{1}' {
        1u8
    } else if c == '\u{2}' {
        2u8
    } else if c == '\u{3}' {
        3u8
    } else if c == '\u{4}' {
        4u8
    } else if c == '\u{5}' {
        5u8
    } else if c == '\u{6}' {
        6u8
    } else if c == '\u{7}' {
        7u8
    } else if c == '\u{8}' {
        8u8
    } else if c == '\u{9}' {
        9u8
    } else if c == '\u{a}' {
        10u8
    } else if c == '\u{b}' {
        11u8
    } else if c == '\u{c}' {
        12u8
    } else if c == '\u{d}' {
        13u8
    } else if c == '\u{e}' {
        14u8
    } else if c == '\u{f}' {
        15u8
    } else if c == '\u{10}' {
        16u8
    } else if c == '\u{11}' {
        17u8
    } else if c == '\u{12}' {
        18u8
    } else if c == '\u{13}' {
        19u8
    } else if c == '\u{14}' {
        20u8
    } else if c == '\u{15}' {
        21u8
    } else if c == '\u{16}' {
        22u8
    } else if c == '\u{17}' {
        23u8
    } else if c == '\u{18}' {
        24u8
    } else if c == '\u{19}' {
        25u8
    } else if c == '\u{1a}' {
        26u8
    } else if c == '\u{1b}' {
        27u8
    } else if c == '\u{1c}' {
        28u8
    } else if c == '\u{1d}' {
        29u8
    } else if c == '\u{1e}' {
        30u8
    } else {
        31u8
    }
}

/// The value of a lowercase hexadecimal digit.
pub fn hex_digit_val(c: char) -> (v: u8)
    requires
        spec_is_hex_digit(c),
    ensures
        v as int == spec_hex_val(c),
{
    if c == '0' {
        0u8
    } else if c == '1' {
        1u8
    } else if c == '2' {
        2u8
    } else if c == '3' {
        3u8
    } else if c == '4' {
        4u8
    } else if c == '5' {
        5u8
    } else if c == '6' {
        6u8
    } else if c == '7' {
        7u8
    } else if c == '8' {
        8u8
    } else if c == '9' {
        9u8
    } else if c == 'a' {
        10u8
    } else if c == 'b' {
        11u8
    } else if c == 'c' {
        12u8
    } else if c == 'd' {
        13u8
    } else if c == 'e' {
        14u8
    } else {
        15u8
    }
}


// ---------------------------------------------------------------------------
// Searching and splitting
// ---------------------------------------------------------------------------

/// The index of the first occurrence of `c`, or the length if there is none.
pub open spec fn spec_find_first(s: Seq<char>, c: char) -> int
    decreases s.len(),
{
    if s.len() == 0 {
        0
    } else if s[0] == c {
        0
    } else {
        1 + spec_find_first(s.skip(1), c)
    }
}

pub proof fn lemma_find_first_char(s: Seq<char>, c: char, j: int)
    requires
        0 <= j <= s.len(),
        forall|k: int| 0 <= k < j ==> s[k] != c,
        j == s.len() || s[j] == c,
    ensures
        spec_find_first(s, c) == j,
    decreases s.len(),
{
    if s.len() > 0 && s[0] != c {
        assert(j >= 1);
        lemma_find_first_char(s.skip(1), c, j - 1);
    }
}

pub proof fn lemma_find_first_bounds(s: Seq<char>, c: char)
    ensures
        0 <= spec_find_first(s, c) <= s.len(),
        spec_find_first(s, c) < s.len() ==> s[spec_find_first(s, c)] == c,
        forall|k: int| 0 <= k < spec_find_first(s, c) ==> s[k] != c,
    decreases s.len(),
{
    if s.len() > 0 && s[0] != c {
        lemma_find_first_bounds(s.skip(1), c);
        assert forall|k: int| 0 <= k < spec_find_first(s, c) implies s[k] != c by {
            if k >= 1 {
                assert(s.skip(1)[k - 1] == s[k]);
            }
        }
    }
}

proof fn lemma_find_ws_bounds(s: Seq<char>)
    ensures
        0 <= spec_find_ws(s) <= s.len(),
        s.len() > 0 && !spec_is_ws(s[0]) ==> spec_find_ws(s) >= 1,
    decreases s.len(),
{
    if s.len() > 0 && !spec_is_ws(s[0]) {
        lemma_find_ws_bounds(s.skip(1));
    }
}

/// Finds the first occurrence of `c` at or after `from`.
pub fn find_char_from(v: &Vec<char>, from: usize, c: char) -> (r: usize)
    requires
        from <= v@.len(),
    ensures
        from <= r <= v@.len(),
        r - from == spec_find_first(v@.skip(from as int), c),
        r < v@.len() ==> v@[r as int] == c,
        forall|k: int| from <= k < r ==> v@[k] != c,
{
    let mut j: usize = from;
    while j < v.len()
        invariant
            from <= j <= v@.len(),
            forall|k: int| from <= k < j ==> v@[k] != c,
        decreases v@.len() - j,
    {
        if v[j] == c {
            proof {
                lemma_find_first_char_shift(v@, from as int, j as int, c);
            }
            return j;
        }
        j = j + 1;
    }
    proof {
        lemma_find_first_char_shift(v@, from as int, v@.len() as int, c);
    }
    j
}

proof fn lemma_find_first_char_shift(s: Seq<char>, from: int, j: int, c: char)
    requires
        0 <= from <= j <= s.len(),
        forall|k: int| from <= k < j ==> s[k] != c,
        j == s.len() || s[j] == c,
    ensures
        spec_find_first(s.skip(from), c) == j - from,
{
    let t = s.skip(from);
    assert(forall|k: int| 0 <= k < j - from ==> t[k] == s[k + from]);
    assert(j - from == t.len() || t[j - from] == c);
    lemma_find_first_char(t, c, j - from);
}

/// ASCII whitespace, as the fields of command output are separated by.
pub open spec fn spec_is_ws(c: char) -> bool {
    c == ' ' || c == '\t' || c == '\r' || c == '\n'
}

pub fn is_ws(c: char) -> (r: bool)
    ensures
        r == spec_is_ws(c),
{
    c == ' ' || c == '\t' || c == '\r' || c == '\n'
}

/// The index of the first whitespace character, or the length.
pub open spec fn spec_find_ws(s: Seq<char>) -> int
    decreases s.len(),
{
    if s.len() == 0 {
        0
    } else if spec_is_ws(s[0]) {
        0
    } else {
        1 + spec_find_ws(s.skip(1))
    }
}

proof fn lemma_find_ws_char(s: Seq<char>, j: int)
    requires
        0 <= j <= s.len(),
        forall|k: int| 0 <= k < j ==> !spec_is_ws(s[k]),
        j == s.len() || spec_is_ws(s[j]),
    ensures
        spec_find_ws(s) == j,
    decreases s.len(),
{
    if s.len() > 0 && !spec_is_ws(s[0]) {
        assert(j >= 1);
        lemma_find_ws_char(s.skip(1), j - 1);
    }
}

/// The whitespace-separated fields of a text, in order, without empties.
pub open spec fn spec_split_ws(s: Seq<char>) -> Seq<Seq<char>>
    decreases s.len(),
    via spec_split_ws_dec
{
    if s.len() == 0 {
        Seq::empty()
    } else if spec_is_ws(s[0]) {
        spec_split_ws(s.skip(1))
    } else {
        let t = spec_find_ws(s);
        seq![s.take(t)] + spec_split_ws(s.skip(t))
    }
}

#[via_fn]
proof fn spec_split_ws_dec(s: Seq<char>) {
    lemma_find_ws_bounds(s);
}

/// Splits on whitespace, keeping nonempty fields only, as
/// `str::split_whitespace` does for ASCII text.
pub fn split_ws(v: &Vec<char>) -> (r: Vec<Vec<char>>)
    ensures
        r@.map_values(|l: Vec<char>| l@) == spec_split_ws(v@),
{
    let mut out: Vec<Vec<char>> = Vec::new();
    assert(out@.map_values(|l: Vec<char>| l@) =~= Seq::<Seq<char>>::empty());
    split_ws_into(v, 0, &mut out);
    assert(v@.skip(0) =~= v@);
    assert(out@.map_values(|l: Vec<char>| l@) =~= spec_split_ws(v@));
    out
}

fn split_ws_into(v: &Vec<char>, i: usize, out: &mut Vec<Vec<char>>)
    requires
        i <= v@.len(),
    ensures
        final(out)@.map_values(|l: Vec<char>| l@) == old(out)@.map_values(|l: Vec<char>| l@)
            + spec_split_ws(v@.skip(i as int)),
    decreases v@.len() - i,
{
    if i >= v.len() {
        assert(v@.skip(i as int).len() == 0);
        assert(final(out)@.map_values(|l: Vec<char>| l@) =~= old(out)@.map_values(
            |l: Vec<char>| l@,
        ) + spec_split_ws(v@.skip(i as int)));
        return ;
    }
    assert(v@.skip(i as int)[0] == v@[i as int]);
    if is_ws(v[i]) {
        assert(v@.skip(i as int).skip(1) =~= v@.skip(i as int + 1));
        split_ws_into(v, i + 1, out);
        return ;
    }
    let e = find_ws_from(v, i);
    let ghost t = spec_find_ws(v@.skip(i as int));
    assert(e - i == t);
    proof {
        lemma_find_ws_bounds(v@.skip(i as int));
        assert(t >= 1);
    }
    let mut field: Vec<char> = Vec::new();
    let mut k: usize = i;
    while k < e
        invariant
            i <= k <= e <= v@.len(),
            field@ == v@.subrange(i as int, k as int),
        decreases e - k,
    {
        field.push(v[k]);
        assert(field@ =~= v@.subrange(i as int, k + 1 as int));
        k = k + 1;
    }
    assert(field@ =~= v@.skip(i as int).take(t));
    out.push(field);
    let ghost mid = out@.map_values(|l: Vec<char>| l@);
    assert(mid =~= old(out)@.map_values(|l: Vec<char>| l@) + seq![v@.skip(i as int).take(t)]);
    assert(v@.skip(i as int).skip(t) =~= v@.skip(e as int));
    split_ws_into(v, e, out);
    assert(final(out)@.map_values(|l: Vec<char>| l@) =~= old(out)@.map_values(|l: Vec<char>| l@)
        + spec_split_ws(v@.skip(i as int)));
}

fn find_ws_from(v: &Vec<char>, from: usize) -> (r: usize)
    requires
        from <= v@.len(),
    ensures
        from <= r <= v@.len(),
        r - from == spec_find_ws(v@.skip(from as int)),
{
    let mut j: usize = from;
    while j < v.len()
        invariant
            from <= j <= v@.len(),
            forall|k: int| from <= k < j ==> !spec_is_ws(v@[k]),
        decreases v@.len() - j,
    {
        if is_ws(v[j]) {
            proof {
                lemma_find_ws_shift(v@, from as int, j as int);
            }
            return j;
        }
        j = j + 1;
    }
    proof {
        lemma_find_ws_shift(v@, from as int, v@.len() as int);
    }
    j
}

proof fn lemma_find_ws_shift(s: Seq<char>, from: int, j: int)
    requires
        0 <= from <= j <= s.len(),
        forall|k: int| from <= k < j ==> !spec_is_ws(s[k]),
        j == s.len() || spec_is_ws(s[j]),
    ensures
        spec_find_ws(s.skip(from)) == j - from,
{
    let t = s.skip(from);
    assert(forall|k: int| 0 <= k < j - from ==> t[k] == s[k + from]);
    assert(j - from == t.len() || spec_is_ws(t[j - from]));
    lemma_find_ws_char(t, j - from);
}

/// The lines of a text, as `str::lines` yields them: split on `'\n'`, each
/// line's trailing `'\r'` removed, no final empty line.
pub open spec fn spec_strip_cr(l: Seq<char>) -> Seq<char> {
    if l.len() > 0 && l[l.len() - 1] == '\r' {
        l.drop_last()
    } else {
        l
    }
}

pub open spec fn spec_lines(s: Seq<char>) -> Seq<Seq<char>>
    decreases s.len(),
    via spec_lines_dec
{
    if s.len() == 0 {
        Seq::empty()
    } else {
        let i = spec_find_first(s, '\n');
        if i == s.len() {
            seq![spec_strip_cr(s)]
        } else {
            seq![spec_strip_cr(s.take(i))] + spec_lines(s.skip(i + 1))
        }
    }
}

#[via_fn]
proof fn spec_lines_dec(s: Seq<char>) {
    lemma_find_first_bounds(s, '\n');
}

/// Splits a text into lines.
pub fn split_lines(v: &Vec<char>) -> (r: Vec<Vec<char>>)
    ensures
        r@.map_values(|l: Vec<char>| l@) == spec_lines(v@),
{
    let mut out: Vec<Vec<char>> = Vec::new();
    assert(out@.map_values(|l: Vec<char>| l@) =~= Seq::<Seq<char>>::empty());
    split_lines_into(v, 0, &mut out);
    assert(v@.skip(0) =~= v@);
    assert(out@.map_values(|l: Vec<char>| l@) =~= spec_lines(v@));
    out
}

fn split_lines_into(v: &Vec<char>, i: usize, out: &mut Vec<Vec<char>>)
    requires
        i <= v@.len(),
    ensures
        final(out)@.map_values(|l: Vec<char>| l@) == old(out)@.map_values(|l: Vec<char>| l@)
            + spec_lines(v@.skip(i as int)),
    decreases v@.len() - i,
{
    let ghost rem = v@.skip(i as int);
    if i >= v.len() {
        assert(rem.len() == 0);
        assert(final(out)@.map_values(|l: Vec<char>| l@) =~= old(out)@.map_values(
            |l: Vec<char>| l@,
        ) + spec_lines(rem));
        return ;
    }
    let e = find_char_from(v, i, '\n');
    let ghost t = spec_find_first(rem, '\n');
    assert(e - i == t);
    let mut line: Vec<char> = Vec::new();
    let mut k: usize = i;
    let stop: usize = if e > i && v[e - 1] == '\r' {
        e - 1
    } else {
        e
    };
    while k < stop
        invariant
            i <= k <= stop <= v@.len(),
            line@ == v@.subrange(i as int, k as int),
        decreases stop - k,
    {
        line.push(v[k]);
        assert(line@ =~= v@.subrange(i as int, k + 1 as int));
        k = k + 1;
    }
    proof {
        let raw = if t == rem.len() {
            rem
        } else {
            rem.take(t)
        };
        assert(raw =~= v@.subrange(i as int, e as int));
        assert(line@ =~= spec_strip_cr(raw)) by {
            if raw.len() > 0 && raw[raw.len() - 1] == '\r' {
                assert(v@[e - 1] == '\r');
                assert(line@ =~= raw.drop_last());
            } else {
                if e > i {
                    assert(raw[raw.len() - 1] == v@[e - 1]);
                }
            }
        }
    }
    out.push(line);
    let ghost mid = out@.map_values(|l: Vec<char>| l@);
    if e >= v.len() {
        assert(t == rem.len());
        assert(final(out)@.map_values(|l: Vec<char>| l@) =~= old(out)@.map_values(
            |l: Vec<char>| l@,
        ) + spec_lines(rem));
    } else {
        assert(t < rem.len());
        assert(rem.skip(t + 1) =~= v@.skip(e as int + 1));
        split_lines_into(v, e + 1, out);
        assert(final(out)@.map_values(|l: Vec<char>| l@) =~= old(out)@.map_values(
            |l: Vec<char>| l@,
        ) + spec_lines(rem));
    }
}

/// Whether `s` starts with `prefix`.
pub fn starts_with_str(v: &Vec<char>, prefix: &str) -> (r: bool)
    ensures
        r == starts_with(v@, prefix@),
{
    let p = chars_vec(prefix);
    if v.len() < p.len() {
        return false;
    }
    let mut k: usize = 0;
    while k < p.len()
        invariant
            k <= p@.len() <= v@.len(),
            p@ == prefix@,
            forall|m: int| 0 <= m < k ==> v@[m] == p@[m],
        decreases p@.len() - k,
    {
        if v[k] != p[k] {
            proof {
                if starts_with(v@, prefix@) {
                    assert(v@.subrange(0, prefix@.len() as int)[k as int] == v@[k as int]);
                }
            }
            return false;
        }
        k = k + 1;
    }
    proof {
        assert(v@.subrange(0, prefix@.len() as int) =~= prefix@);
    }
    true
}

/// Whether `s` ends with `suffix`.
pub open spec fn spec_ends_with(s: Seq<char>, suffix: Seq<char>) -> bool {
    s.len() >= suffix.len() && s.skip(s.len() - suffix.len()) == suffix
}

pub fn ends_with_str(v: &Vec<char>, suffix: &str) -> (r: bool)
    ensures
        r == spec_ends_with(v@, suffix@),
{
    let p = chars_vec(suffix);
    let n = v.len();
    if n < p.len() {
        return false;
    }
    let off = n - p.len();
    let mut k: usize = 0;
    while k < p.len()
        invariant
            k <= p@.len() <= v@.len(),
            n == v@.len(),
            off == v@.len() - p@.len(),
            p@ == suffix@,
            forall|m: int| 0 <= m < k ==> v@[off + m] == p@[m],
        decreases p@.len() - k,
    {
        if v[off + k] != p[k] {
            proof {
                if spec_ends_with(v@, suffix@) {
                    assert(v@.skip(off as int)[k as int] == v@[off + k]);
                }
            }
            return false;
        }
        k = k + 1;
    }
    proof {
        assert(v@.skip(off as int) =~= suffix@);
    }
    true
}

/// Whether `pat` occurs anywhere in `s`.
pub open spec fn spec_contains_sub(s: Seq<char>, pat: Seq<char>) -> bool {
    exists|i: int|
        0 <= i <= s.len() - pat.len() && #[trigger] s.subrange(i, i + pat.len() as int) == pat
}

pub fn contains_sub(v: &Vec<char>, pat: &str) -> (r: bool)
    ensures
        r == spec_contains_sub(v@, pat@),
{
    let p = chars_vec(pat);
    let n = v.len();
    if p.len() == 0 {
        proof {
            assert(v@.subrange(0, 0 + pat@.len() as int) =~= pat@);
        }
        return true;
    }
    if n < p.len() {
        proof {
            assert(!spec_contains_sub(v@, pat@));
        }
        return false;
    }
    let mut i: usize = 0;
    while i <= n - p.len()
        invariant
            n == v@.len(),
            p@.len() >= 1,
            v@.len() >= p@.len(),
            i <= v@.len() - p@.len() + 1,
            p@ == pat@,
            forall|m: int| 0 <= m < i ==> #[trigger] v@.subrange(m, m + pat@.len() as int) != pat@,
        decreases v@.len() - p@.len() + 1 - i,
    {
        let mut k: usize = 0;
        let mut matched = true;
        while k < p.len()
            invariant
                k <= p@.len(),
                n == v@.len(),
                i + p@.len() <= v@.len(),
                p@ == pat@,
                matched ==> forall|m: int| 0 <= m < k ==> v@[i + m] == p@[m],
                !matched ==> v@.subrange(i as int, i + pat@.len() as int) != pat@,
            decreases p@.len() - k,
        {
            if v[i + k] != p[k] {
                matched = false;
                proof {
                    assert(v@.subrange(i as int, i + pat@.len() as int)[k as int] == v@[i + k]);
                    assert(v@.subrange(i as int, i + pat@.len() as int) != pat@);
                }
                k = p.len();
            } else {
                k = k + 1;
            }
        }
        if matched {
            proof {
                assert(v@.subrange(i as int, i + pat@.len() as int) =~= pat@);
            }
            return true;
        }
        i = i + 1;
    }
    proof {
        assert(!spec_contains_sub(v@, pat@));
    }
    false
}

/// The text with leading and trailing ASCII whitespace removed.
pub open spec fn spec_trim(s: Seq<char>) -> Seq<char>
    decreases s.len(),
{
    if s.len() == 0 {
        s
    } else if spec_is_ws(s[0]) {
        spec_trim(s.skip(1))
    } else if spec_is_ws(s[s.len() - 1]) {
        spec_trim(s.drop_last())
    } else {
        s
    }
}

pub fn trim(v: &Vec<char>) -> (r: Vec<char>)
    ensures
        r@ == spec_trim(v@),
{
    let mut a: usize = 0;
    let mut b: usize = v.len();
    assert(v@.subrange(0, v@.len() as int) == v@);
    while a < b && is_ws(v[a])
        invariant
            a <= b <= v@.len(),
            spec_trim(v@) == spec_trim(v@.subrange(a as int, b as int)),
        decreases b - a,
    {
        assert(v@.subrange(a as int, b as int)[0] == v@[a as int]);
        assert(v@.subrange(a as int, b as int).skip(1) =~= v@.subrange(a as int + 1, b as int));
        a = a + 1;
    }
    while a < b && is_ws(v[b - 1])
        invariant
            a <= b <= v@.len(),
            spec_trim(v@) == spec_trim(v@.subrange(a as int, b as int)),
            a == b || !spec_is_ws(v@[a as int]),
        decreases b - a,
    {
        assert(v@.subrange(a as int, b as int)[0] == v@[a as int]);
        assert(v@.subrange(a as int, b as int)[b - a - 1] == v@[b - 1]);
        assert(v@.subrange(a as int, b as int).drop_last() =~= v@.subrange(a as int, b as int - 1));
        b = b - 1;
    }
    let mut out: Vec<char> = Vec::new();
    let mut k: usize = a;
    while k < b
        invariant
            a <= k <= b <= v@.len(),
            out@ == v@.subrange(a as int, k as int),
        decreases b - k,
    {
        out.push(v[k]);
        assert(out@ =~= v@.subrange(a as int, k + 1 as int));
        k = k + 1;
    }
    proof {
        let sub = v@.subrange(a as int, b as int);
        if a < b {
            assert(sub[0] == v@[a as int]);
            assert(sub[sub.len() - 1] == v@[b - 1]);
        }
        assert(spec_trim(sub) == sub);
        assert(out@ =~= sub);
    }
    out
}

/// A decimal octet as `u8::from_str` reads it: up to three digits, no sign,
/// no leading zero unless it is exactly "0", value at most 255.
pub open spec fn spec_parse_octet(t: Seq<char>) -> Option<u8> {
    if t.len() == 0 || !(forall|k: int| 0 <= k < t.len() ==> spec_is_digit(#[trigger] t[k])) {
        Option::None
    } else if t.len() >= 2 && t[0] == '0' {
        Option::None
    } else if t.len() > 3 {
        Option::None
    } else {
        let v = if t.len() == 1 {
            spec_digit_val(t[0])
        } else if t.len() == 2 {
            spec_digit_val(t[0]) * 10 + spec_digit_val(t[1])
        } else {
            spec_digit_val(t[0]) * 100 + spec_digit_val(t[1]) * 10 + spec_digit_val(t[2])
        };
        if v <= 255 {
            Option::Some(v as u8)
        } else {
            Option::None
        }
    }
}

pub fn parse_octet(v: &Vec<char>) -> (r: Option<u8>)
    ensures
        r == spec_parse_octet(v@),
{
    if v.len() == 0 || v.len() > 3 {
        return Option::None;
    }
    let mut k: usize = 0;
    while k < v.len()
        invariant
            k <= v@.len(),
            forall|m: int| 0 <= m < k ==> spec_is_digit(#[trigger] v@[m]),
        decreases v@.len() - k,
    {
        let c = v[k];
        if !(c >= '0' && c <= '9') {
            return Option::None;
        }
        k = k + 1;
    }
    if v.len() >= 2 && v[0] == '0' {
        return Option::None;
    }
    let mut val: u32 = 0;
    let mut k2: usize = 0;
    while k2 < v.len()
        invariant
            k2 <= v@.len() <= 3,
            forall|m: int| 0 <= m < v@.len() ==> spec_is_digit(#[trigger] v@[m]),
            val <= 999,
            k2 == 1 ==> val == spec_digit_val(v@[0]),
            k2 == 2 ==> val == spec_digit_val(v@[0]) * 10 + spec_digit_val(v@[1]),
            k2 == 3 ==> val == spec_digit_val(v@[0]) * 100 + spec_digit_val(v@[1]) * 10
                + spec_digit_val(v@[2]),
            k2 == 0 ==> val == 0,
        decreases v@.len() - k2,
    {
        let d = hex_digit_val(v[k2]);
        val = val * 10 + (d as u32);
        k2 = k2 + 1;
    }
    if val <= 255 {
        Option::Some(val as u8)
    } else {
        Option::None
    }
}

/// Splits on a separator character, empty parts kept, as `str::split` does.
pub open spec fn spec_split_char(s: Seq<char>, c: char) -> Seq<Seq<char>>
    decreases s.len(),
    via spec_split_char_dec
{
    let i = spec_find_first(s, c);
    if i == s.len() {
        seq![s]
    } else {
        seq![s.take(i)] + spec_split_char(s.skip(i + 1), c)
    }
}

#[via_fn]
proof fn spec_split_char_dec(s: Seq<char>, c: char) {
    lemma_find_first_bounds(s, c);
}

pub fn split_char(v: &Vec<char>, c: char) -> (r: Vec<Vec<char>>)
    ensures
        r@.map_values(|l: Vec<char>| l@) == spec_split_char(v@, c),
{
    let mut out: Vec<Vec<char>> = Vec::new();
    assert(out@.map_values(|l: Vec<char>| l@) =~= Seq::<Seq<char>>::empty());
    split_char_into(v, 0, c, &mut out);
    assert(v@.skip(0) =~= v@);
    assert(out@.map_values(|l: Vec<char>| l@) =~= spec_split_char(v@, c));
    out
}

fn split_char_into(v: &Vec<char>, i: usize, c: char, out: &mut Vec<Vec<char>>)
    requires
        i <= v@.len(),
    ensures
        final(out)@.map_values(|l: Vec<char>| l@) == old(out)@.map_values(|l: Vec<char>| l@)
            + spec_split_char(v@.skip(i as int), c),
    decreases v@.len() - i,
{
    let ghost rem = v@.skip(i as int);
    let e = find_char_from(v, i, c);
    let ghost t = spec_find_first(rem, c);
    assert(e - i == t);
    let mut part: Vec<char> = Vec::new();
    let mut k: usize = i;
    while k < e
        invariant
            i <= k <= e <= v@.len(),
            part@ == v@.subrange(i as int, k as int),
        decreases e - k,
    {
        part.push(v[k]);
        assert(part@ =~= v@.subrange(i as int, k + 1 as int));
        k = k + 1;
    }
    out.push(part);
    if e >= v.len() {
        assert(t == rem.len());
        assert(v@.subrange(i as int, e as int) =~= rem);
        assert(final(out)@.map_values(|l: Vec<char>| l@) =~= old(out)@.map_values(
            |l: Vec<char>| l@,
        ) + spec_split_char(rem, c));
    } else {
        assert(t < rem.len());
        assert(v@.subrange(i as int, e as int) =~= rem.take(t));
        assert(rem.skip(t + 1) =~= v@.skip(e as int + 1));
        split_char_into(v, e + 1, c, out);
        assert(final(out)@.map_values(|l: Vec<char>| l@) =~= old(out)@.map_values(
            |l: Vec<char>| l@,
        ) + spec_split_char(rem, c));
    }
}

/// Whether two character vectors spell the same text.
pub fn chars_eq(a: &Vec<char>, b: &Vec<char>) -> (r: bool)
    ensures
        r == (a@ == b@),
{
    if a.len() != b.len() {
        return false;
    }
    let mut k: usize = 0;
    while k < a.len()
        invariant
            k <= a@.len(),
            a@.len() == b@.len(),
            forall|m: int| 0 <= m < k ==> a@[m] == b@[m],
        decreases a@.len() - k,
    {
        if a[k] != b[k] {
            return false;
        }
        k = k + 1;
    }
    proof {
        assert(a@ =~= b@);
    }
    true
}

/// A copy of a string.
pub fn copy_string(s: &String) -> (r: String)
    ensures
        r@ == s@,
{
    chars_to_string(&chars_vec(s.as_str()))
}

} // verus!