//! Text helpers shared by the display and ordering code of the engine:
//! decimal rendering of indices, character-wise comparison of strings, and
//! the lexicographic order on character sequences.

use vstd::prelude::*;

verus! {

// ── Decimal rendering ─────────────────────────────────────────────────────────

/// The ASCII character of decimal digit `d` (`d < 10`).
pub open spec fn digit_char(d: nat) -> char {
    ((48 + d) as u32) as char
}

/// Decimal representation of `n`: no sign, no leading zero, `"0"` for zero.
pub open spec fn decimal(n: nat) -> Seq<char>
    decreases n,
{
    if n < 10 {
        seq![digit_char(n)]
    } else {
        decimal(n / 10) + seq![digit_char(n % 10)]
    }
}

/// A decimal representation has one digit below ten and more above.
pub proof fn lemma_decimal_len(n: nat)
    ensures
        decimal(n).len() >= 1,
        decimal(n).len() == 1 <==> n < 10,
    decreases n,
{
    if n >= 10 {
        lemma_decimal_len(n / 10);
    }
}

/// Distinct numbers have distinct decimal representations.
pub proof fn lemma_decimal_injective(a: nat, b: nat)
    ensures
        decimal(a) == decimal(b) ==> a == b,
    decreases a,
{
    lemma_decimal_len(a);
    lemma_decimal_len(b);
    if decimal(a) == decimal(b) {
        if a >= 10 && b >= 10 {
            let da = decimal(a);
            assert(da.drop_last() =~= decimal(a / 10));
            assert(decimal(b).drop_last() =~= decimal(b / 10));
            lemma_decimal_injective(a / 10, b / 10);
            assert(da.last() == digit_char(a % 10));
            assert(decimal(b).last() == digit_char(b % 10));
            vstd::utf8::char_u32_cast(digit_char(a % 10), ((48 + a % 10) as u32));
        } else if a < 10 && b < 10 {
            assert(decimal(a)[0] == digit_char(a));
            assert(decimal(b)[0] == digit_char(b));
        }
    }
}

fn digit_str(d: usize) -> (r: &'static str)
    requires
        d < 10,
    ensures
        r@ == seq![digit_char(d as nat)],
{
    proof {
        reveal_strlit("0");
        reveal_strlit("1");
        reveal_strlit("2");
        reveal_strlit("3");
        reveal_strlit("4");
        reveal_strlit("5");
        reveal_strlit("6");
        reveal_strlit("7");
        reveal_strlit("8");
        reveal_strlit("9");
    }
    if d == 0 {
        "0"
    } else if d == 1 {
        "1"
    } else if d == 2 {
        "2"
    } else if d == 3 {
        "3"
    } else if d == 4 {
        "4"
    } else if d == 5 {
        "5"
    } else if d == 6 {
        "6"
    } else if d == 7 {
        "7"
    } else if d == 8 {
        "8"
    } else {
        "9"
    }
}

/// Appends the decimal representation of `n` to `out`.
pub fn push_decimal(out: &mut String, n: usize)
    ensures
        final(out)@ == old(out)@ + decimal(n as nat),
    decreases n,
{
    if n >= 10 {
        push_decimal(out, n / 10);
    }
    out.append(digit_str(n % 10));
    assert(final(out)@ == old(out)@ + decimal(n as nat));
}


/// The elements of `s` in decimal, separated by `", "`.
pub open spec fn decimal_join(s: Seq<usize>) -> Seq<char>
    decreases s.len(),
{
    if s.len() == 0 {
        Seq::empty()
    } else if s.len() == 1 {
        decimal(s[0] as nat)
    } else {
        decimal_join(s.drop_last()) + ", "@ + decimal(s.last() as nat)
    }
}

/// The debug rendering of a list of indices: `[a, b, c]`.
pub open spec fn decimal_list(s: Seq<usize>) -> Seq<char> {
    "["@ + decimal_join(s) + "]"@
}

/// Appends the debug rendering of `values` (`[a, b, c]`) to `out`.
pub fn push_decimal_list(out: &mut String, values: &Vec<usize>)
    ensures
        final(out)@ == old(out)@ + decimal_list(values@),
{
    proof {
        reveal_strlit("[");
        reveal_strlit("]");
        reveal_strlit(", ");
    }
    let ghost start = out@;
    out.append("[");
    let mut i: usize = 0;
    while i < values.len()
        invariant
            i <= values@.len(),
            out@ == start + "["@ + decimal_join(values@.subrange(0, i as int)),
        decreases values@.len() - i,
    {
        if i > 0 {
            out.append(", ");
        }
        push_decimal(out, values[i]);
        proof {
            let t = values@.subrange(0, i + 1);
            assert(t.drop_last() =~= values@.subrange(0, i as int));
            assert(t.last() == values@[i as int]);
            if i == 0 {
                assert(values@.subrange(0, 0) =~= Seq::<usize>::empty());
            }
        }
        i = i + 1;
    }
    assert(values@.subrange(0, values@.len() as int) =~= values@);
    out.append("]");
}

// ── Lexicographic order ───────────────────────────────────────────────────────

/// Lexicographic comparison of the suffixes of `a` and `b` starting at `i`,
/// characters compared by code point: `true` when `a[i..] <= b[i..]`.
pub open spec fn lex_le_from(a: Seq<char>, b: Seq<char>, i: nat) -> bool
    decreases a.len() - i,
{
    if i >= a.len() {
        true
    } else if i >= b.len() {
        false
    } else if a[i as int] != b[i as int] {
        (a[i as int] as u32) < (b[i as int] as u32)
    } else {
        lex_le_from(a, b, i + 1)
    }
}

/// `a <= b` in the lexicographic order on code points, which is also the
/// byte-wise order of the UTF-8 encodings.
pub open spec fn lex_le(a: Seq<char>, b: Seq<char>) -> bool {
    lex_le_from(a, b, 0)
}

/// Every suffix is no greater than itself.
pub proof fn lemma_lex_le_from_refl(a: Seq<char>, i: nat)
    ensures
        lex_le_from(a, a, i),
    decreases a.len() - i,
{
    if i < a.len() {
        lemma_lex_le_from_refl(a, i + 1);
    }
}

/// Any two suffixes are comparable.
pub proof fn lemma_lex_le_from_total(a: Seq<char>, b: Seq<char>, i: nat)
    ensures
        lex_le_from(a, b, i) || lex_le_from(b, a, i),
    decreases a.len() - i,
{
    if i < a.len() && i < b.len() {
        if a[i as int] == b[i as int] {
            lemma_lex_le_from_total(a, b, i + 1);
        } else {
            vstd::utf8::char_u32_cast(a[i as int], a[i as int] as u32);
            vstd::utf8::char_u32_cast(b[i as int], b[i as int] as u32);
        }
    }
}

/// The comparison of suffixes is transitive.
pub proof fn lemma_lex_le_from_trans(a: Seq<char>, b: Seq<char>, c: Seq<char>, i: nat)
    requires
        lex_le_from(a, b, i),
        lex_le_from(b, c, i),
    ensures
        lex_le_from(a, c, i),
    decreases a.len() - i,
{
    if i < a.len() && a[i as int] == b[i as int] && b[i as int] == c[i as int] {
        lemma_lex_le_from_trans(a, b, c, i + 1);
    }
}

/// Suffixes each no greater than the other are equal.
pub proof fn lemma_lex_le_from_antisym(a: Seq<char>, b: Seq<char>, i: nat)
    requires
        i <= a.len(),
        i <= b.len(),
        lex_le_from(a, b, i),
        lex_le_from(b, a, i),
    ensures
        a.len() == b.len(),
        forall|j: int| i <= j < a.len() ==> a[j] == b[j],
    decreases a.len() - i,
{
    if i < a.len() {
        lemma_lex_le_from_antisym(a, b, i + 1);
    }
}

/// The lexicographic order is a total order.
pub proof fn lemma_lex_le_total_order(a: Seq<char>, b: Seq<char>, c: Seq<char>)
    ensures
        lex_le(a, a),
        lex_le(a, b) || lex_le(b, a),
        lex_le(a, b) && lex_le(b, c) ==> lex_le(a, c),
        lex_le(a, b) && lex_le(b, a) ==> a == b,
{
    lemma_lex_le_from_refl(a, 0);
    lemma_lex_le_from_total(a, b, 0);
    if lex_le(a, b) && lex_le(b, c) {
        lemma_lex_le_from_trans(a, b, c, 0);
    }
    if lex_le(a, b) && lex_le(b, a) {
        lemma_lex_le_from_antisym(a, b, 0);
        assert(a =~= b);
    }
}

/// Decides `lex_le(a, b)`.
pub fn lex_le_chars(a: &Vec<char>, b: &Vec<char>) -> (r: bool)
    ensures
        r == lex_le(a@, b@),
{
    let mut i: usize = 0;
    while i < a.len() && i < b.len() && a[i] == b[i]
        invariant
            i <= a.len(),
            i <= b.len(),
            lex_le(a@, b@) == lex_le_from(a@, b@, i as nat),
        decreases a.len() - i,
    {
        i = i + 1;
    }
    if i >= a.len() {
        true
    } else if i >= b.len() {
        false
    } else {
        (a[i] as u32) < (b[i] as u32)
    }
}

// ── Character access ──────────────────────────────────────────────────────────

/// The characters of `s`, in order.
pub fn chars_of(s: &str) -> (r: Vec<char>)
    ensures
        r@ == s@,
{
    let n = s.unicode_len();
    let mut r: Vec<char> = Vec::new();
    let mut i: usize = 0;
    while i < n
        invariant
            n == s@.len(),
            i <= n,
            r@ == s@.subrange(0, i as int),
        decreases n - i,
    {
        r.push(s.get_char(i));
        i = i + 1;
    }
    assert(r@ =~= s@);
    r
}

/// Character-wise equality of two string slices.
pub fn str_eq(a: &str, b: &str) -> (r: bool)
    ensures
        r == (a@ == b@),
{
    let x = String::from_str(a);
    let y = String::from_str(b);
    x == y
}

} // verus!
