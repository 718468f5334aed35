use vstd::prelude::*;

verus! {

/// Unicode `White_Space` property, the set that `char::is_whitespace` tests.
pub open spec fn is_ws(c: char) -> bool {
    ||| ('\u{9}' <= c && c <= '\u{d}')
    ||| c == ' '
    ||| c == '\u{85}'
    ||| c == '\u{a0}'
    ||| c == '\u{1680}'
    ||| ('\u{2000}' <= c && c <= '\u{200a}')
    ||| c == '\u{2028}'
    ||| c == '\u{2029}'
    ||| c == '\u{202f}'
    ||| c == '\u{205f}'
    ||| c == '\u{3000}'
}

/// General category `Cc`, the set that `char::is_control` tests.
pub open spec fn is_ctrl(c: char) -> bool {
    c <= '\u{1f}' || ('\u{7f}' <= c && c <= '\u{9f}')
}

/// ASCII lower-casing of one character, as `char::to_ascii_lowercase`.
pub open spec fn lower_char(c: char) -> char {
    if 'A' <= c && c <= 'Z' {
        ((c as u32) + 32) as char
    } else {
        c
    }
}

pub open spec fn lower_seq(s: Seq<char>) -> Seq<char> {
    Seq::new(s.len(), |i: int| lower_char(s[i]))
}

pub open spec fn is_digit(c: char) -> bool {
    '0' <= c && c <= '9'
}

pub fn is_whitespace(c: char) -> (r: bool)
    ensures
        r == is_ws(c),
{
    ('\u{9}' <= c && c <= '\u{d}') || c == ' ' || c == '\u{85}' || c == '\u{a0}' || c
        == '\u{1680}' || ('\u{2000}' <= c && c <= '\u{200a}') || c == '\u{2028}' || c
        == '\u{2029}' || c == '\u{202f}' || c == '\u{205f}' || c == '\u{3000}'
}

pub fn is_control(c: char) -> (r: bool)
    ensures
        r == is_ctrl(c),
{
    c <= '\u{1f}' || ('\u{7f}' <= c && c <= '\u{9f}')
}

pub fn to_lower(c: char) -> (r: char)
    ensures
        r == lower_char(c),
{
    if 'A' <= c && c <= 'Z' {
        let n: u32 = (c as u32) + 32;
        assert(n <= 0x7f);
        char_from_ascii(n)
    } else {
        c
    }
}

fn char_from_ascii(n: u32) -> (r: char)
    requires
        n <= 0x7f,
    ensures
        r == n as char,
{
    let b: u8 = n as u8;
    b as char
}

/// The characters of a string slice.
pub fn chars_of(s: &str) -> (r: Vec<char>)
    ensures
        r@ == s@,
{
    let mut v: Vec<char> = Vec::new();
    for c in it: s.chars()
        invariant
            v@ == it.seq().take(it.index() as int),
    {
        v.push(c);
    }
    v
}

/// Builds a string from characters (`String: FromIterator<char>`).
#[verifier::external_body]
pub fn string_of(v: &Vec<char>) -> (r: String)
    ensures
        r@ == v@,
{
    v.iter().collect()
}

/// Builds a string from a slice of characters.
pub fn str_owned(s: &str) -> (r: String)
    ensures
        r@ == s@,
{
    s.to_owned()
}

/// Concatenation of two strings.
pub fn cat(a: &str, b: &str) -> (r: String)
    ensures
        r@ == a@ + b@,
{
    let mut s = a.to_owned();
    s.append(b);
    s
}

/// Appends `b` to `a`.
pub fn push_str(a: &mut String, b: &str)
    ensures
        final(a)@ == old(a)@ + b@,
{
    a.append(b);
}

pub open spec fn has_at(s: Seq<char>, t: Seq<char>, i: int) -> bool {
    0 <= i && i + t.len() <= s.len() && s.subrange(i, i + t.len()) == t
}

pub open spec fn contains_seq(s: Seq<char>, t: Seq<char>) -> bool {
    exists|i: int| has_at(s, t, i)
}

/// A text contains whatever was put into it, and starts with what it was begun with.
pub proof fn lemma_contains_inserted(a: Seq<char>, m: Seq<char>, b: Seq<char>)
    ensures
        contains_seq(a + m + b, m),
        starts_with_seq(m + b, m),
{
    assert((a + m + b).subrange(a.len() as int, (a.len() + m.len()) as int) =~= m);
    assert(has_at(a + m + b, m, a.len() as int));
    assert((m + b).subrange(0, m.len() as int) =~= m);
}

pub open spec fn starts_with_seq(s: Seq<char>, t: Seq<char>) -> bool {
    has_at(s, t, 0)
}

pub open spec fn ends_with_seq(s: Seq<char>, t: Seq<char>) -> bool {
    t.len() <= s.len() && has_at(s, t, s.len() - t.len())
}

/// Whether `t` occurs in `s` at position `i`.
pub fn match_at(s: &Vec<char>, t: &Vec<char>, i: usize) -> (r: bool)
    ensures
        r == has_at(s@, t@, i as int),
{
    if i > s.len() || t.len() > s.len() - i {
        return false;
    }
    let mut k: usize = 0;
    while k < t.len()
        invariant
            i + t.len() <= s.len(),
            k <= t.len(),
            forall|j: int| 0 <= j < k ==> s@[i + j] == t@[j],
        decreases t.len() - k,
    {
        if s[i + k] != t[k] {
            assert(s@.subrange(i as int, i + t.len())[k as int] != t@[k as int]);
            return false;
        }
        k = k + 1;
    }
    assert(s@.subrange(i as int, i + t.len()) =~= t@);
    true
}

/// The first position at or after `from` where `t` occurs in `s`.
pub fn find_from(s: &Vec<char>, t: &Vec<char>, from: usize) -> (r: Option<usize>)
    ensures
        match r {
            Some(i) => from <= i && has_at(s@, t@, i as int) && forall|j: int|
                from <= j < i ==> !has_at(s@, t@, j),
            None => forall|j: int| from <= j ==> !has_at(s@, t@, j),
        },
{
    let mut i: usize = from;
    if i > s.len() {
        return None;
    }
    while i <= s.len()
        invariant
            from <= i,
            i <= s.len() + 1,
            forall|j: int| from <= j < i ==> !has_at(s@, t@, j),
        decreases s.len() + 1 - i,
    {
        if match_at(s, t, i) {
            return Some(i);
        }
        if i == s.len() {
            return None;
        }
        i = i + 1;
    }
    None
}

pub fn contains(s: &Vec<char>, t: &Vec<char>) -> (r: bool)
    ensures
        r == contains_seq(s@, t@),
{
    match find_from(s, t, 0) {
        Some(i) => true,
        None => false,
    }
}

pub fn contains_str(s: &str, t: &str) -> (r: bool)
    ensures
        r == contains_seq(s@, t@),
{
    contains(&chars_of(s), &chars_of(t))
}

pub fn starts_with(s: &Vec<char>, t: &Vec<char>) -> (r: bool)
    ensures
        r == starts_with_seq(s@, t@),
{
    match_at(s, t, 0)
}

pub fn ends_with(s: &Vec<char>, t: &Vec<char>) -> (r: bool)
    ensures
        r == ends_with_seq(s@, t@),
{
    if t.len() > s.len() {
        false
    } else {
        match_at(s, t, s.len() - t.len())
    }
}

pub fn char_in(s: &Vec<char>, c: char) -> (r: bool)
    ensures
        r == s@.contains(c),
{
    let mut i: usize = 0;
    while i < s.len()
        invariant
            i <= s.len(),
            forall|j: int| 0 <= j < i ==> s@[j] != c,
        decreases s.len() - i,
    {
        if s[i] == c {
            return true;
        }
        i = i + 1;
    }
    false
}

/// Index of the first character that is not white space (or the length).
pub open spec fn trim_start_index(s: Seq<char>) -> int
    decreases s.len(),
{
    if s.len() == 0 {
        0
    } else if is_ws(s[0]) {
        1 + trim_start_index(s.drop_first())
    } else {
        0
    }
}

/// Length of the prefix that ends at the last character that is not white space.
pub open spec fn trim_end_index(s: Seq<char>) -> int
    decreases s.len(),
{
    if s.len() == 0 {
        0
    } else if is_ws(s.last()) {
        trim_end_index(s.drop_last())
    } else {
        s.len() as int
    }
}

/// `str::trim`: the string without leading and trailing white space.
pub open spec fn trim_seq(s: Seq<char>) -> Seq<char> {
    let e = trim_end_index(s);
    s.subrange(trim_start_index(s.subrange(0, e)), e)
}

pub proof fn lemma_trim_start(s: Seq<char>)
    ensures
        0 <= trim_start_index(s) <= s.len(),
        forall|j: int| 0 <= j < trim_start_index(s) ==> is_ws(#[trigger] s[j]),
        trim_start_index(s) < s.len() ==> !is_ws(s[trim_start_index(s)]),
    decreases s.len(),
{
    if s.len() > 0 && is_ws(s[0]) {
        lemma_trim_start(s.drop_first());
        assert forall|j: int| 0 <= j < trim_start_index(s) implies is_ws(#[trigger] s[j]) by {
            if j > 0 {
                assert(s[j] == s.drop_first()[j - 1]);
            }
        }
    }
}

pub proof fn lemma_trim_end(s: Seq<char>)
    ensures
        0 <= trim_end_index(s) <= s.len(),
        forall|j: int| trim_end_index(s) <= j < s.len() ==> is_ws(#[trigger] s[j]),
        trim_end_index(s) > 0 ==> !is_ws(s[trim_end_index(s) - 1]),
    decreases s.len(),
{
    if s.len() > 0 && is_ws(s.last()) {
        lemma_trim_end(s.drop_last());
        assert forall|j: int| trim_end_index(s) <= j < s.len() implies is_ws(#[trigger] s[j]) by {
            if j < s.len() - 1 {
                assert(s[j] == s.drop_last()[j]);
            }
        }
    }
}

proof fn lemma_trim_start_char(s: Seq<char>, k: int)
    requires
        0 <= k <= s.len(),
        forall|j: int| 0 <= j < k ==> is_ws(#[trigger] s[j]),
        k < s.len() ==> !is_ws(s[k]),
    ensures
        trim_start_index(s) == k,
    decreases s.len(),
{
    if s.len() > 0 && k > 0 {
        assert(is_ws(s[0]));
        assert forall|j: int| 0 <= j < k - 1 implies is_ws(#[trigger] s.drop_first()[j]) by {
            assert(s.drop_first()[j] == s[j + 1]);
        }
        if k - 1 < s.len() - 1 {
            assert(s.drop_first()[k - 1] == s[k]);
        }
        lemma_trim_start_char(s.drop_first(), k - 1);
    }
}

proof fn lemma_trim_end_char(s: Seq<char>, k: int)
    requires
        0 <= k <= s.len(),
        forall|j: int| k <= j < s.len() ==> is_ws(#[trigger] s[j]),
        k > 0 ==> !is_ws(s[k - 1]),
    ensures
        trim_end_index(s) == k,
    decreases s.len(),
{
    if s.len() > 0 && k < s.len() {
        assert(is_ws(s[s.len() - 1]));
        assert forall|j: int| k <= j < s.len() - 1 implies is_ws(#[trigger] s.drop_last()[j]) by {
            assert(s.drop_last()[j] == s[j]);
        }
        if k > 0 {
            assert(s.drop_last()[k - 1] == s[k - 1]);
        }
        lemma_trim_end_char(s.drop_last(), k);
    }
}

/// `str::trim` on characters.
pub fn trim(s: &Vec<char>) -> (r: Vec<char>)
    ensures
        r@ == trim_seq(s@),
{
    let mut e: usize = s.len();
    while e > 0 && is_whitespace(s[e - 1])
        invariant
            e <= s.len(),
            forall|j: int| e <= j < s.len() ==> is_ws(#[trigger] s@[j]),
        decreases e,
    {
        e = e - 1;
    }
    proof {
        lemma_trim_end_char(s@, e as int);
    }
    let ghost p = s@.subrange(0, e as int);
    let mut b: usize = 0;
    while b < e && is_whitespace(s[b])
        invariant
            b <= e,
            e <= s.len(),
            p == s@.subrange(0, e as int),
            forall|j: int| 0 <= j < b ==> is_ws(#[trigger] p[j]),
        decreases e - b,
    {
        b = b + 1;
    }
    proof {
        lemma_trim_start_char(p, b as int);
    }
    let mut r: Vec<char> = Vec::new();
    let mut i: usize = b;
    while i < e
        invariant
            b <= i <= e,
            e <= s.len(),
            r@ == s@.subrange(b as int, i as int),
        decreases e - i,
    {
        r.push(s[i]);
        assert(r@ =~= s@.subrange(b as int, i + 1));
        i = i + 1;
    }
    r
}

pub fn trim_str(s: &str) -> (r: Vec<char>)
    ensures
        r@ == trim_seq(s@),
{
    trim(&chars_of(s))
}

/// Decimal digits of a natural number, as integers print.
pub open spec fn decimal(n: nat) -> Seq<char>
    decreases n,
{
    if n < 10 {
        seq![digit_char(n)]
    } else {
        decimal(n / 10).push(digit_char(n % 10))
    }
}

pub open spec fn digit_char(d: nat) -> char {
    ((d + 48) as u32) as char
}

/// Decimal form of an unsigned integer (`u64::to_string`).
pub fn decimal_string(n: u64) -> (r: String)
    ensures
        r@ == decimal(n as nat),
{
    // digits holds the decimal form of the part of `n` already consumed, in reverse
    let mut digits: Vec<char> = Vec::new();
    let mut m: u64 = n;
    while m >= 10
        invariant
            decimal(n as nat) == decimal(m as nat) + digits@.reverse(),
        decreases m,
    {
        let d: u64 = m % 10;
        let c = char_from_ascii((d + 48) as u32);
        assert(decimal(m as nat) == decimal((m / 10) as nat).push(digit_char((m % 10) as nat)));
        digits.push(c);
        assert(digits@.reverse() =~= seq![c] + digits@.drop_last().reverse());
        assert(decimal(n as nat) =~= decimal((m / 10) as nat) + digits@.reverse());
        m = m / 10;
    }
    let c = char_from_ascii((m + 48) as u32);
    digits.push(c);
    assert(digits@.reverse() =~= seq![c] + digits@.drop_last().reverse());
    assert(decimal(n as nat) =~= digits@.reverse());
    let mut out: Vec<char> = Vec::new();
    let mut i: usize = digits.len();
    while i > 0
        invariant
            i <= digits.len(),
            out@ == digits@.subrange(i as int, digits.len() as int).reverse(),
        decreases i,
    {
        i = i - 1;
        out.push(digits[i]);
        assert(out@ =~= digits@.subrange(i as int, digits.len() as int).reverse());
    }
    assert(digits@.subrange(0, digits.len() as int) =~= digits@);
    string_of(&out)
}

/// The parts joined with `sep` between neighbours (`[String]::join`).
pub open spec fn joined(parts: Seq<Seq<char>>, sep: Seq<char>) -> Seq<char>
    decreases parts.len(),
{
    if parts.len() == 0 {
        Seq::empty()
    } else if parts.len() == 1 {
        parts[0]
    } else {
        joined(parts.drop_last(), sep) + sep + parts.last()
    }
}

pub fn join(parts: &Vec<String>, sep: &str) -> (r: String)
    ensures
        r@ == joined(crate::diagnostic::strings_view(parts@), sep@),
{
    let mut s = String::new();
    let mut i: usize = 0;
    while i < parts.len()
        invariant
            i <= parts.len(),
            s@ == joined(crate::diagnostic::strings_view(parts@.take(i as int)), sep@),
        decreases parts.len() - i,
    {
        assert(crate::diagnostic::strings_view(parts@.take(i + 1)).drop_last()
            =~= crate::diagnostic::strings_view(parts@.take(i as int)));
        if i > 0 {
            push_str(&mut s, sep);
        }
        push_str(&mut s, parts[i].as_str());
        assert(s@ =~= joined(crate::diagnostic::strings_view(parts@.take(i + 1)), sep@));
        i = i + 1;
    }
    assert(parts@.take(parts.len() as int) =~= parts@);
    s
}

/// `a <= b` in the order of `String`: code point by code point, a prefix first.
pub open spec fn lex_le(a: Seq<char>, b: Seq<char>) -> bool
    decreases a.len(),
{
    if a.len() == 0 {
        true
    } else if b.len() == 0 {
        false
    } else if (a[0] as u32) != (b[0] as u32) {
        (a[0] as u32) < (b[0] as u32)
    } else {
        lex_le(a.drop_first(), b.drop_first())
    }
}

pub proof fn lemma_lex_total(a: Seq<char>, b: Seq<char>)
    ensures
        lex_le(a, b) || lex_le(b, a),
    decreases a.len(),
{
    if a.len() > 0 && b.len() > 0 && (a[0] as u32) == (b[0] as u32) {
        lemma_lex_total(a.drop_first(), b.drop_first());
    }
}

pub proof fn lemma_lex_trans(a: Seq<char>, b: Seq<char>, c: Seq<char>)
    requires
        lex_le(a, b),
        lex_le(b, c),
    ensures
        lex_le(a, c),
    decreases a.len(),
{
    if a.len() > 0 && b.len() > 0 && c.len() > 0 && (a[0] as u32) == (b[0] as u32) && (b[0] as u32) == (c[0] as u32) {
        lemma_lex_trans(a.drop_first(), b.drop_first(), c.drop_first());
    }
}

/// Two texts each no greater than the other are the same text.
pub proof fn lemma_lex_antisym(a: Seq<char>, b: Seq<char>)
    requires
        lex_le(a, b),
        lex_le(b, a),
    ensures
        a == b,
    decreases a.len(),
{
    if a.len() > 0 && b.len() > 0 {
        lemma_lex_antisym(a.drop_first(), b.drop_first());
        vstd::utf8::char_u32_cast(a[0], a[0] as u32);
        vstd::utf8::char_u32_cast(b[0], b[0] as u32);
        assert(a[0] == b[0]);
        assert(a =~= seq![a[0]] + a.drop_first());
        assert(b =~= seq![b[0]] + b.drop_first());
    } else {
        assert(a =~= b);
    }
}

pub fn str_le(a: &str, b: &str) -> (r: bool)
    ensures
        r == lex_le(a@, b@),
{
    let x = chars_of(a);
    let y = chars_of(b);
    let mut i: usize = 0;
    assert(x@.skip(0) =~= x@);
    assert(y@.skip(0) =~= y@);
    while i < x.len() && i < y.len() && (x[i] as u32) == (y[i] as u32)
        invariant
            i <= x.len(),
            i <= y.len(),
            x@ == a@,
            y@ == b@,
            lex_le(a@, b@) == lex_le(x@.skip(i as int), y@.skip(i as int)),
        decreases x.len() - i,
    {
        assert(x@.skip(i as int).drop_first() =~= x@.skip(i + 1));
        assert(y@.skip(i as int).drop_first() =~= y@.skip(i + 1));
        i = i + 1;
    }
    if i == x.len() {
        true
    } else if i == y.len() {
        false
    } else {
        assert(x@.skip(i as int)[0] == x@[i as int]);
        assert(y@.skip(i as int)[0] == y@[i as int]);
        (x[i] as u32) < (y[i] as u32)
    }
}

/// Whether the texts are in `String` order.
pub open spec fn sorted_texts(v: Seq<Seq<char>>) -> bool {
    forall|i: int, j: int| 0 <= i < j < v.len() ==> lex_le(v[i], v[j])
}

/// `slice::sort` on strings: the same texts, in order.
pub fn sort_strings(v: Vec<String>) -> (r: Vec<String>)
    ensures
        sorted_texts(crate::diagnostic::strings_view(r@)),
        crate::diagnostic::strings_view(r@).to_multiset() == crate::diagnostic::strings_view(v@).to_multiset(),
{
    broadcast use vstd::multiset::group_multiset_axioms;
    let ghost all = crate::diagnostic::strings_view(v@);
    let mut rest = v;
    let mut out: Vec<String> = Vec::new();
    proof {
        let e = crate::diagnostic::strings_view(out@);
        assert(e =~= Seq::<Seq<char>>::empty());
        vstd::seq_lib::to_multiset_len(e);
        vstd::multiset::lemma_multiset_empty_len(e.to_multiset());
        assert(e.to_multiset().add(all.to_multiset()) =~= all.to_multiset());
    }
    while rest.len() > 0
        invariant
            sorted_texts(crate::diagnostic::strings_view(out@)),
            crate::diagnostic::strings_view(out@).to_multiset().add(crate::diagnostic::strings_view(rest@).to_multiset())
                == all.to_multiset(),
        decreases rest.len(),
    {
        let ghost before = crate::diagnostic::strings_view(rest@);
        let x = rest.remove(0);
        proof {
            assert(crate::diagnostic::strings_view(rest@) =~= before.remove(0));
            vstd::seq_lib::to_multiset_remove(before, 0);
            assert(before[0] == x@);
            assert(before.contains(x@));
            vstd::seq_lib::to_multiset_contains(before, x@);
        }
        let ghost prev = crate::diagnostic::strings_view(out@);
        let mut j: usize = 0;
        while j < out.len() && str_le(out[j].as_str(), x.as_str())
            invariant
                j <= out.len(),
                prev == crate::diagnostic::strings_view(out@),
                forall|k: int| 0 <= k < j ==> lex_le(#[trigger] prev[k], x@),
            decreases out.len() - j,
        {
            j = j + 1;
        }
        proof {
            if j < out.len() {
                lemma_lex_total(prev[j as int], x@);
            }
            assert forall|k: int| j <= k < prev.len() implies lex_le(x@, #[trigger] prev[k]) by {
                if k > j {
                    lemma_lex_trans(x@, prev[j as int], prev[k]);
                }
            }
        }
        out.insert(j, x);
        proof {
            let now = crate::diagnostic::strings_view(out@);
            assert(now =~= prev.insert(j as int, x@));
            vstd::seq_lib::to_multiset_insert(prev, j as int, x@);
            assert forall|a: int, b: int| 0 <= a < b < now.len() implies lex_le(now[a], now[b]) by {
                if b == j {
                    assert(now[a] == prev[a]);
                } else if a == j {
                    assert(now[b] == prev[b - 1]);
                } else if a < j && b > j {
                    assert(now[a] == prev[a]);
                    assert(now[b] == prev[b - 1]);
                    lemma_lex_trans(prev[a], x@, prev[b - 1]);
                } else if b < j {
                    assert(now[a] == prev[a] && now[b] == prev[b]);
                } else {
                    assert(now[a] == prev[a - 1] && now[b] == prev[b - 1]);
                }
            }
            assert(now.to_multiset().add(crate::diagnostic::strings_view(rest@).to_multiset()) =~= all.to_multiset());
        }
    }
    proof {
        let e = crate::diagnostic::strings_view(rest@);
        vstd::seq_lib::to_multiset_len(e);
        vstd::multiset::lemma_multiset_empty_len(e.to_multiset());
    }
    assert(crate::diagnostic::strings_view(out@).to_multiset().add(crate::diagnostic::strings_view(rest@).to_multiset())
        =~= crate::diagnostic::strings_view(out@).to_multiset());
    out
}

} // verus!
