use vstd::prelude::*;

verus! {

/// Lower-case hex digit for a value below 16.
pub open spec fn hex_char(n: u8) -> char {
    if n < 10 {
        ((48 + n) as u32) as char
    } else {
        ((87 + n) as u32) as char
    }
}

/// Two lower-case hex digits per byte, most significant digit first.
pub open spec fn hex_chars(b: Seq<u8>) -> Seq<char>
    decreases b.len(),
{
    if b.len() == 0 {
        Seq::empty()
    } else {
        hex_chars(b.drop_last()) + seq![hex_char(b.last() / 16), hex_char(b.last() % 16)]
    }
}

/// How an address hash displays: the hex digits between two slashes.
pub open spec fn display_chars(b: Seq<u8>) -> Seq<char> {
    seq!['/'] + hex_chars(b) + seq!['/']
}

/// The characters trimmed from both ends of a displayed hash.
pub open spec fn is_trim_char(c: char) -> bool {
    c == '/' || c == '<' || c == '>'
}

/// Drops trim characters from the front.
pub open spec fn strip_front(s: Seq<char>) -> Seq<char>
    decreases s.len(),
{
    if s.len() > 0 && is_trim_char(s[0]) {
        strip_front(s.drop_first())
    } else {
        s
    }
}

/// Drops trim characters from the back.
pub open spec fn strip_back(s: Seq<char>) -> Seq<char>
    decreases s.len(),
{
    if s.len() > 0 && is_trim_char(s.last()) {
        strip_back(s.drop_last())
    } else {
        s
    }
}

/// Drops every leading `0x`.
pub open spec fn strip_hex_prefix(s: Seq<char>) -> Seq<char>
    decreases s.len(),
{
    if s.len() >= 2 && s[0] == '0' && s[1] == 'x' {
        strip_hex_prefix(s.skip(2))
    } else {
        s
    }
}

/// The hash text read from a displayed hash: trim characters off both ends, then any `0x`.
pub open spec fn hash_text(s: Seq<char>) -> Seq<char> {
    strip_hex_prefix(strip_back(strip_front(s)))
}

/// Lower-case hex digit for a value below 16, as a one-character string.
fn hex_digit_str(n: u8) -> (s: &'static str)
    requires
        n < 16,
    ensures
        s@ == seq![hex_char(n)],
{
    if n == 0 {
        proof {
            reveal_strlit("0");
        }
        assert("0"@ =~= seq![hex_char(n)]);
        "0"
    } else if n == 1 {
        proof {
            reveal_strlit("1");
        }
        assert("1"@ =~= seq![hex_char(n)]);
        "1"
    } else if n == 2 {
        proof {
            reveal_strlit("2");
        }
        assert("2"@ =~= seq![hex_char(n)]);
        "2"
    } else if n == 3 {
        proof {
            reveal_strlit("3");
        }
        assert("3"@ =~= seq![hex_char(n)]);
        "3"
    } else if n == 4 {
        proof {
            reveal_strlit("4");
        }
        assert("4"@ =~= seq![hex_char(n)]);
        "4"
    } else if n == 5 {
        proof {
            reveal_strlit("5");
        }
        assert("5"@ =~= seq![hex_char(n)]);
        "5"
    } else if n == 6 {
        proof {
            reveal_strlit("6");
        }
        assert("6"@ =~= seq![hex_char(n)]);
        "6"
    } else if n == 7 {
        proof {
            reveal_strlit("7");
        }
        assert("7"@ =~= seq![hex_char(n)]);
        "7"
    } else if n == 8 {
        proof {
            reveal_strlit("8");
        }
        assert("8"@ =~= seq![hex_char(n)]);
        "8"
    } else if n == 9 {
        proof {
            reveal_strlit("9");
        }
        assert("9"@ =~= seq![hex_char(n)]);
        "9"
    } else if n == 10 {
        proof {
            reveal_strlit("a");
        }
        assert("a"@ =~= seq![hex_char(n)]);
        "a"
    } else if n == 11 {
        proof {
            reveal_strlit("b");
        }
        assert("b"@ =~= seq![hex_char(n)]);
        "b"
    } else if n == 12 {
        proof {
            reveal_strlit("c");
        }
        assert("c"@ =~= seq![hex_char(n)]);
        "c"
    } else if n == 13 {
        proof {
            reveal_strlit("d");
        }
        assert("d"@ =~= seq![hex_char(n)]);
        "d"
    } else if n == 14 {
        proof {
            reveal_strlit("e");
        }
        assert("e"@ =~= seq![hex_char(n)]);
        "e"
    } else {
        proof {
            reveal_strlit("f");
        }
        assert("f"@ =~= seq![hex_char(n)]);
        "f"
    }
}

/// Displays an address hash as `/` + two lower-case hex digits per byte + `/`.
pub fn address_display(b: &[u8; 16]) -> (s: String)
    ensures
        s@ == display_chars(b@),
{
    proof {
        reveal_strlit("/");
    }
    assert("/"@ =~= seq!['/']);
    let mut out = String::new();
    out.append("/");
    let mut i: usize = 0;
    while i < 16
        invariant
            i <= 16,
            b@.len() == 16,
            "/"@ == seq!['/'],
            out@ == seq!['/'] + hex_chars(b@.take(i as int)),
        decreases 16 - i,
    {
        let byte = b[i];
        out.append(hex_digit_str(byte / 16));
        out.append(hex_digit_str(byte % 16));
        assert(b@.take(i + 1).drop_last() == b@.take(i as int));
        i = i + 1;
    }
    assert(b@.take(16) == b@);
    out.append("/");
    out
}

proof fn lemma_strip_front_skip(s: Seq<char>, i: int)
    requires
        0 <= i < s.len(),
        is_trim_char(s[i]),
    ensures
        strip_front(s.skip(i)) == strip_front(s.skip(i + 1)),
{
    assert(s.skip(i).drop_first() == s.skip(i + 1));
}

proof fn lemma_strip_back_take(s: Seq<char>, j: int)
    requires
        0 < j <= s.len(),
        is_trim_char(s[j - 1]),
    ensures
        strip_back(s.take(j)) == strip_back(s.take(j - 1)),
{
    assert(s.take(j).drop_last() == s.take(j - 1));
}

/// Reads the hash text out of a displayed hash: trims `/`, `<` and `>` from both ends,
/// then every leading `0x`.
pub fn trim_hash_display(s: &str) -> (r: String)
    ensures
        r@ == hash_text(s@),
{
    let n = s.unicode_len();
    let mut chars: Vec<char> = Vec::new();
    let mut k: usize = 0;
    while k < n
        invariant
            n == s@.len(),
            k <= n,
            chars@ == s@.take(k as int),
        decreases n - k,
    {
        chars.push(s.get_char(k));
        k = k + 1;
        assert(chars@ == s@.take(k as int));
    }
    assert(chars@ == s@);
    let ghost t = s@;
    // front
    let mut i: usize = 0;
    while i < n && is_trim(chars[i])
        invariant
            n == t.len(),
            chars@ == t,
            i <= n,
            strip_front(t) == strip_front(t.skip(i as int)),
        decreases n - i,
    {
        proof {
            lemma_strip_front_skip(t, i as int);
        }
        i = i + 1;
    }
    assert(strip_front(t) == t.skip(i as int)) by {
        if i < n {
        } else {
            assert(t.skip(i as int).len() == 0);
        }
    }
    let ghost u = t.skip(i as int);
    // back
    let mut j: usize = n;
    assert(u.take(j - i) == u);
    while j > i && is_trim(chars[j - 1])
        invariant
            n == t.len(),
            chars@ == t,
            i <= j <= n,
            u == t.skip(i as int),
            strip_back(u) == strip_back(u.take(j - i)),
        decreases j,
    {
        proof {
            lemma_strip_back_take(u, j - i);
        }
        j = j - 1;
    }
    assert(strip_back(u) == u.take(j - i));
    let ghost w = u.take(j - i);
    assert(w == t.subrange(i as int, j as int));
    // leading 0x
    let mut p: usize = i;
    while j - p >= 2 && chars[p] == '0' && chars[p + 1] == 'x'
        invariant
            n == t.len(),
            chars@ == t,
            i <= p <= j <= n,
            w == t.subrange(i as int, j as int),
            strip_hex_prefix(w) == strip_hex_prefix(t.subrange(p as int, j as int)),
        decreases j - p,
    {
        assert(t.subrange(p as int, j as int).skip(2) == t.subrange(p + 2, j as int));
        p = p + 2;
    }
    assert(strip_hex_prefix(w) == t.subrange(p as int, j as int));
    let rest = s.substring_char(p, j);
    String::from_str(rest)
}

fn is_trim(c: char) -> (b: bool)
    ensures
        b == is_trim_char(c),
{
    c == '/' || c == '<' || c == '>'
}

proof fn lemma_hex_chars_len(b: Seq<u8>)
    ensures
        hex_chars(b).len() == 2 * b.len(),
    decreases b.len(),
{
    if b.len() > 0 {
        lemma_hex_chars_len(b.drop_last());
    }
}

proof fn lemma_hex_chars_digits(b: Seq<u8>, k: int)
    requires
        0 <= k < hex_chars(b).len(),
    ensures
        is_hex_digit(hex_chars(b)[k]),
    decreases b.len(),
{
    lemma_hex_chars_len(b);
    if b.len() > 0 {
        lemma_hex_chars_len(b.drop_last());
        if k < hex_chars(b.drop_last()).len() {
            lemma_hex_chars_digits(b.drop_last(), k);
        }
    }
}

/// A lower-case hex digit.
pub open spec fn is_hex_digit(c: char) -> bool {
    (48 <= (c as u32) <= 57) || (97 <= (c as u32) <= 102)
}

/// Reading the hash text back out of a displayed address gives exactly its
/// lower-case hex digits, two per byte.
pub proof fn lemma_hash_text_of_display(b: Seq<u8>)
    requires
        b.len() > 0,
    ensures
        hash_text(display_chars(b)) == hex_chars(b),
        hex_chars(b).len() == 2 * b.len(),
        forall|k: int| 0 <= k < hex_chars(b).len() ==> is_hex_digit(#[trigger] hex_chars(b)[k]),
{
    assert forall|k: int| 0 <= k < hex_chars(b).len() implies is_hex_digit(
        #[trigger] hex_chars(b)[k],
    ) by {
        lemma_hex_chars_digits(b, k);
    }
    let h = hex_chars(b);
    lemma_hex_chars_len(b);
    lemma_hex_chars_digits(b, 0);
    lemma_hex_chars_digits(b, 1);
    lemma_hex_chars_digits(b, h.len() - 1);
    let d = display_chars(b);
    assert(d.drop_first() == h + seq!['/']);
    assert(strip_front(h + seq!['/']) == h + seq!['/']);
    assert(strip_front(d) == h + seq!['/']);
    assert((h + seq!['/']).drop_last() == h);
    assert(strip_back(h) == h);
    assert(strip_back(h + seq!['/']) == h);
    assert(strip_hex_prefix(h) == h);
}

/// The value of a lower-case hex digit.
pub open spec fn hex_digit_value(c: char) -> int {
    if 48 <= (c as u32) <= 57 {
        (c as u32) - 48
    } else {
        (c as u32) - 87
    }
}

proof fn lemma_hex_char_value(n: u8)
    requires
        n < 16,
    ensures
        is_hex_digit(hex_char(n)),
        hex_digit_value(hex_char(n)) == n,
{
}

/// Reading the hex text back gives the bytes: character `2k` is the hex digit of the high
/// nibble of byte `k`, character `2k + 1` that of its low nibble, all lower-case.
pub proof fn lemma_hex_chars_decode(b: Seq<u8>)
    ensures
        hex_chars(b).len() == 2 * b.len(),
        forall|k: int|
            0 <= k < b.len() ==> {
                &&& is_hex_digit(#[trigger] hex_chars(b)[2 * k])
                &&& is_hex_digit(hex_chars(b)[2 * k + 1])
                &&& hex_digit_value(hex_chars(b)[2 * k]) == b[k] / 16
                &&& hex_digit_value(hex_chars(b)[2 * k + 1]) == b[k] % 16
                &&& 16 * hex_digit_value(hex_chars(b)[2 * k]) + hex_digit_value(
                    hex_chars(b)[2 * k + 1],
                ) == b[k]
            },
    decreases b.len(),
{
    lemma_hex_chars_len(b);
    if b.len() > 0 {
        let d = b.drop_last();
        lemma_hex_chars_decode(d);
        lemma_hex_chars_len(d);
        let x = b.last();
        lemma_hex_char_value(x / 16);
        lemma_hex_char_value(x % 16);
        assert forall|k: int| 0 <= k < b.len() implies {
            &&& is_hex_digit(#[trigger] hex_chars(b)[2 * k])
            &&& is_hex_digit(hex_chars(b)[2 * k + 1])
            &&& hex_digit_value(hex_chars(b)[2 * k]) == b[k] / 16
            &&& hex_digit_value(hex_chars(b)[2 * k + 1]) == b[k] % 16
            &&& 16 * hex_digit_value(hex_chars(b)[2 * k]) + hex_digit_value(
                hex_chars(b)[2 * k + 1],
            ) == b[k]
        } by {
            if k < d.len() {
                assert(hex_chars(b)[2 * k] == hex_chars(d)[2 * k]);
                assert(hex_chars(b)[2 * k + 1] == hex_chars(d)[2 * k + 1]);
                assert(b[k] == d[k]);
            } else {
                assert(hex_chars(b)[2 * k] == hex_char(x / 16));
                assert(hex_chars(b)[2 * k + 1] == hex_char(x % 16));
            }
        }
    }
}

} // verus!
