use vstd::prelude::*;
use vstd::string::*;

verus! {

/// `pat` occurs in `s` starting at position `i`.
pub open spec fn occurs_at(s: Seq<char>, pat: Seq<char>, i: int) -> bool {
    &&& 0 <= i
    &&& i + pat.len() <= s.len()
    &&& s.subrange(i, i + pat.len()) == pat
}

/// `pat` is a substring of `s` (the empty pattern is in every text).
pub open spec fn contains_text(s: Seq<char>, pat: Seq<char>) -> bool {
    exists|i: int| occurs_at(s, pat, i)
}

/// Whether `pat` occurs in `s` at position `i`.
fn matches_at(s: &str, pat: &str, i: usize, s_len: usize, pat_len: usize) -> (r: bool)
    requires
        s_len == s@.len(),
        pat_len == pat@.len(),
        i + pat_len <= s_len,
    ensures
        r == occurs_at(s@, pat@, i as int),
{
    let mut k: usize = 0;
    while k < pat_len
        invariant
            s_len == s@.len(),
            pat_len == pat@.len(),
            i + pat_len <= s_len,
            k <= pat_len,
            forall|j: int| 0 <= j < k ==> s@[i + j] == pat@[j],
        decreases pat_len - k,
    {
        if s.get_char(i + k) != pat.get_char(k) {
            assert(s@.subrange(i as int, i + pat_len)[k as int] != pat@[k as int]);
            return false;
        }
        k = k + 1;
    }
    assert(s@.subrange(i as int, i + pat_len) =~= pat@);
    true
}

/// Equality of two string slices, character by character.
pub fn str_eq(a: &str, b: &str) -> (r: bool)
    ensures
        r == (a@ == b@),
{
    let a_len = a.unicode_len();
    let b_len = b.unicode_len();
    if a_len != b_len {
        return false;
    }
    let r = matches_at(a, b, 0, a_len, b_len);
    proof {
        assert(a@.subrange(0, b_len as int) =~= a@);
    }
    r
}


/// `i` is the position of the first occurrence of `pat` in `s`.
pub open spec fn is_first_occurrence(s: Seq<char>, pat: Seq<char>, i: int) -> bool {
    &&& occurs_at(s, pat, i)
    &&& forall|j: int| 0 <= j < i ==> !occurs_at(s, pat, j)
}

/// Position of the first occurrence of `pat` in `s`, if any.
pub fn find_text(s: &str, pat: &str) -> (r: Option<usize>)
    ensures
        match r {
            Some(i) => is_first_occurrence(s@, pat@, i as int),
            None => !contains_text(s@, pat@),
        },
{
    let s_len = s.unicode_len();
    let pat_len = pat.unicode_len();
    if pat_len > s_len {
        return None;
    }
    let mut i: usize = 0;
    loop
        invariant
            s_len == s@.len(),
            pat_len == pat@.len(),
            i + pat_len <= s_len,
            forall|j: int| 0 <= j < i ==> !occurs_at(s@, pat@, j),
        decreases s_len - i,
    {
        if matches_at(s, pat, i, s_len, pat_len) {
            return Some(i);
        }
        if i + pat_len == s_len {
            assert forall|j: int| !occurs_at(s@, pat@, j) by {
                if j > i {
                    assert(j + pat@.len() > s@.len());
                }
            }
            return None;
        }
        i = i + 1;
    }
}

/// Whether `pat` occurs in `s`, as `str::contains` with a string pattern.
pub fn text_contains(s: &str, pat: &str) -> (r: bool)
    ensures
        r == contains_text(s@, pat@),
{
    match find_text(s, pat) {
        Some(_) => true,
        None => false,
    }
}

/// The part of `s` before the first occurrence of `sep`, or all of `s` when `sep`
/// does not occur: the first item that `s.split(sep)` yields.
pub open spec fn first_piece(s: Seq<char>, sep: Seq<char>) -> Seq<char> {
    if exists|i: int| is_first_occurrence(s, sep, i) {
        s.take(choose|i: int| is_first_occurrence(s, sep, i))
    } else {
        s
    }
}

/// The first occurrence is unique.
pub proof fn lemma_first_occurrence_unique(s: Seq<char>, pat: Seq<char>, i: int, j: int)
    requires
        is_first_occurrence(s, pat, i),
        is_first_occurrence(s, pat, j),
    ensures
        i == j,
{
    if i < j {
        assert(!occurs_at(s, pat, i));
    } else if j < i {
        assert(!occurs_at(s, pat, j));
    }
}

/// The first item of `s.split(sep)`, as an owned string.
pub fn split_first(s: &str, sep: &str) -> (r: String)
    ensures
        r@ == first_piece(s@, sep@),
{
    match find_text(s, sep) {
        Some(i) => {
            proof {
                let k = choose|k: int| is_first_occurrence(s@, sep@, k);
                lemma_first_occurrence_unique(s@, sep@, i as int, k);
            }
            let piece = s.substring_char(0, i);
            assert(piece@ =~= s@.take(i as int));
            String::from_str(piece)
        },
        None => {
            assert forall|i: int| !is_first_occurrence(s@, sep@, i) by {
                assert(!occurs_at(s@, sep@, i));
            }
            String::from_str(s)
        },
    }
}


/// `String::push` from std: appends one character.
#[verifier::external_body]
fn push_char(s: &mut String, c: char)
    ensures
        final(s)@ == old(s)@.push(c),
{
    s.push(c)
}

/// The character of the decimal digit `d`.
pub open spec fn digit_char(d: nat) -> char {
    (d + 48) as char
}

/// Decimal notation of `n`, without sign or leading zeros.
pub open spec fn decimal(n: nat) -> Seq<char>
    decreases n,
{
    if n < 10 {
        seq![digit_char(n)]
    } else {
        decimal(n / 10).push(digit_char(n % 10))
    }
}

fn digit(d: usize) -> (c: char)
    requires
        d < 10,
    ensures
        c == digit_char(d as nat),
{
    let b: u8 = d as u8 + 48;
    b as char
}

/// `n` written in decimal, as `format!("{}", n)` writes it.
pub fn decimal_string(n: usize) -> (r: String)
    ensures
        r@ == decimal(n as nat),
    decreases n,
{
    if n < 10 {
        let mut s = String::new();
        push_char(&mut s, digit(n));
        s
    } else {
        let mut s = decimal_string(n / 10);
        push_char(&mut s, digit(n % 10));
        s
    }
}


/// Result of comparing two texts.
#[derive(PartialEq, Eq, Structural, Clone, Copy, Debug)]
pub enum TextOrder {
    Less,
    Equal,
    Greater,
}

/// `a` and `b` agree on their first `k` characters and differ at `k`, where the
/// one that ends there, or has the smaller code point there, is `a`.
pub open spec fn less_at(a: Seq<char>, b: Seq<char>, k: int) -> bool {
    &&& 0 <= k <= a.len()
    &&& k <= b.len()
    &&& a.take(k) == b.take(k)
    &&& ((k == a.len() && k < b.len()) || (k < a.len() && k < b.len() && (a[k] as u32) < (b[k]
        as u32)))
}

/// Lexicographic order by code point: the order of `String` (UTF-8 keeps code-point order).
pub open spec fn text_less(a: Seq<char>, b: Seq<char>) -> bool {
    exists|k: int| less_at(a, b, k)
}

/// Compares `a` and `b` in lexicographic code-point order.
pub fn text_order(a: &str, b: &str) -> (r: TextOrder)
    ensures
        r == TextOrder::Less <==> text_less(a@, b@),
        r == TextOrder::Equal <==> a@ == b@,
        r == TextOrder::Greater <==> text_less(b@, a@),
{
    let a_len = a.unicode_len();
    let b_len = b.unicode_len();
    let mut k: usize = 0;
    while k < a_len && k < b_len
        invariant
            a_len == a@.len(),
            b_len == b@.len(),
            k <= a_len,
            k <= b_len,
            a@.take(k as int) == b@.take(k as int),
        decreases a_len - k,
    {
        let ca = a.get_char(k);
        let cb = b.get_char(k);
        if ca != cb {
            proof {
                assert(a@[k as int] != b@[k as int]);
                assert((a@[k as int] as u32) != (b@[k as int] as u32));
            }
            if (ca as u32) < (cb as u32) {
                proof {
                    assert(less_at(a@, b@, k as int));
                    lemma_text_less_asymmetric(a@, b@);
                }
                return TextOrder::Less;
            } else {
                proof {
                    assert(less_at(b@, a@, k as int));
                    lemma_text_less_asymmetric(b@, a@);
                }
                return TextOrder::Greater;
            }
        }
        proof {
            assert(a@.take(k + 1) =~= a@.take(k as int).push(a@[k as int]));
            assert(b@.take(k + 1) =~= b@.take(k as int).push(b@[k as int]));
        }
        k = k + 1;
    }
    if a_len < b_len {
        proof {
            assert(a@.take(k as int) =~= a@);
            assert(less_at(a@, b@, k as int));
            lemma_text_less_asymmetric(a@, b@);
        }
        TextOrder::Less
    } else if a_len == b_len {
        proof {
            assert(a@.take(k as int) =~= a@);
            assert(b@.take(k as int) =~= b@);
            lemma_text_less_irreflexive(a@);
        }
        TextOrder::Equal
    } else {
        proof {
            assert(b@.take(k as int) =~= b@);
            assert(less_at(b@, a@, k as int));
            lemma_text_less_asymmetric(b@, a@);
        }
        TextOrder::Greater
    }
}

/// No text is less than itself.
pub proof fn lemma_text_less_irreflexive(a: Seq<char>)
    ensures
        !text_less(a, a),
{
}

/// The order is asymmetric, and so strict.
pub proof fn lemma_text_less_asymmetric(a: Seq<char>, b: Seq<char>)
    requires
        text_less(a, b),
    ensures
        !text_less(b, a),
        a != b,
{
    let k = choose|k: int| less_at(a, b, k);
    if text_less(b, a) {
        let j = choose|j: int| less_at(b, a, j);
        if j < k {
            assert(a.take(k)[j] == b.take(k)[j]);
        } else if k < j {
            assert(a.take(j)[k] == b.take(j)[k]);
        }
    }
}

/// The order is transitive.
pub proof fn lemma_text_less_transitive(a: Seq<char>, b: Seq<char>, c: Seq<char>)
    requires
        text_less(a, b),
        text_less(b, c),
    ensures
        text_less(a, c),
{
    let k = choose|k: int| less_at(a, b, k);
    let j = choose|j: int| less_at(b, c, j);
    if k < j {
        assert(b.take(j)[k] == c.take(j)[k]);
        assert(a.take(k) =~= c.take(k)) by {
            assert forall|i: int| 0 <= i < k implies a.take(k)[i] == c.take(k)[i] by {
                assert(a.take(k)[i] == b.take(k)[i]);
                assert(b.take(j)[i] == c.take(j)[i]);
            }
        }
        assert(less_at(a, c, k));
    } else if j < k {
        assert(a.take(k)[j] == b.take(k)[j]);
        assert(a.take(j) =~= c.take(j)) by {
            assert forall|i: int| 0 <= i < j implies a.take(j)[i] == c.take(j)[i] by {
                assert(a.take(k)[i] == b.take(k)[i]);
                assert(b.take(j)[i] == c.take(j)[i]);
            }
        }
        assert(less_at(a, c, j));
    } else {
        assert(a.take(k) =~= c.take(k)) by {
            assert forall|i: int| 0 <= i < k implies a.take(k)[i] == c.take(k)[i] by {
                assert(a.take(k)[i] == b.take(k)[i]);
                assert(b.take(j)[i] == c.take(j)[i]);
            }
        }
        assert(less_at(a, c, k));
    }
}

/// `name` is one of `names`.
pub open spec fn named_in(names: Seq<String>, name: Seq<char>) -> bool {
    exists|k: int| 0 <= k < names.len() && names[k]@ == name
}

/// Whether `name` is one of `tools`, as `<[String]>::contains` decides.
pub fn names_contain(tools: &[String], name: &String) -> (r: bool)
    ensures
        r == named_in(tools@, name@),
{
    let n = tools.len();
    let mut k: usize = 0;
    while k < n
        invariant
            n == tools@.len(),
            k <= n,
            forall|q: int| 0 <= q < k ==> tools@[q]@ != name@,
        decreases n - k,
    {
        if str_eq(tools[k].as_str(), name.as_str()) {
            return true;
        }
        k = k + 1;
    }
    false
}

} // verus!
