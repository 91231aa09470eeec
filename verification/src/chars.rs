//! Character-level utilities: ASCII case folding, whitespace trimming, and
//! conversions between `String` and `Vec<char>`.
//!
//! Keys and commands are compared case-insensitively; the engine folds ASCII
//! letters to lower case and leaves every other character unchanged.

use vstd::prelude::*;

verus! {

/// One character folded to lower case (ASCII letters only).
pub open spec fn lower_char(c: char) -> char {
    if 'A' <= c && c <= 'Z' {
        ((c as u8) + 32) as char
    } else {
        c
    }
}

/// A whole character sequence folded to lower case.
pub open spec fn fold_case(s: Seq<char>) -> Seq<char> {
    s.map_values(|c: char| lower_char(c))
}

/// Fold one character to lower case.
pub fn to_lower(c: char) -> (r: char)
    ensures
        r == lower_char(c),
{
    if 'A' <= c && c <= 'Z' {
        ((c as u8) + 32) as char
    } else {
        c
    }
}

/// Fold every character of a vector to lower case.
pub fn fold_chars(v: &Vec<char>) -> (r: Vec<char>)
    ensures
        r@ == fold_case(v@),
{
    let mut out: Vec<char> = Vec::new();
    let mut i: usize = 0;
    while i < v.len()
        invariant
            i <= v.len(),
            out@ == fold_case(v@.take(i as int)),
        decreases v.len() - i,
    {
        out.push(to_lower(v[i]));
        proof {
            assert(v@.take(i + 1 as int).drop_last() =~= v@.take(i as int));
            assert(out@ =~= fold_case(v@.take(i + 1 as int)));
        }
        i = i + 1;
    }
    proof {
        assert(v@.take(v@.len() as int) =~= v@);
    }
    out
}

/// Character-for-character equality of two vectors.
pub fn chars_eq(a: &Vec<char>, b: &Vec<char>) -> (r: bool)
    ensures
        r == (a@ == b@),
{
    if a.len() != b.len() {
        return false;
    }
    let mut i: usize = 0;
    while i < a.len()
        invariant
            i <= a.len(),
            a@.len() == b@.len(),
            forall|j: int| 0 <= j < i ==> a@[j] == b@[j],
        decreases a.len() - i,
    {
        if a[i] != b[i] {
            return false;
        }
        i = i + 1;
    }
    proof {
        assert(a@ =~= b@);
    }
    true
}

/// The characters of a string, as a vector.
pub fn chars_of_str(s: &str) -> (r: Vec<char>)
    ensures
        r@ == s@,
{
    let n = s.unicode_len();
    let mut out: Vec<char> = Vec::new();
    let mut i: usize = 0;
    while i < n
        invariant
            i <= n,
            n == s@.len(),
            out@ == s@.take(i as int),
        decreases n - i,
    {
        out.push(s.get_char(i));
        proof {
            assert(out@ =~= s@.take(i + 1 as int));
        }
        i = i + 1;
    }
    proof {
        assert(s@.take(n as int) =~= s@);
    }
    out
}

/// Folding is idempotent: a folded sequence folds to itself.
pub proof fn lemma_fold_idempotent(s: Seq<char>)
    ensures
        fold_case(fold_case(s)) == fold_case(s),
{
    assert forall|c: char| #[trigger] lower_char(lower_char(c)) == lower_char(c) by {
        if 'A' <= c && c <= 'Z' {
            assert(lower_char(c) == ((c as u8) + 32) as char);
            assert(((c as u8) + 32) as char > 'Z');
        }
    }
    assert(fold_case(fold_case(s)) =~= fold_case(s));
}

/// An ASCII whitespace character, as trimming understands it.
pub open spec fn is_space_char(c: char) -> bool {
    c == ' ' || c == '\t' || c == '\n' || c == '\r'
}

/// Whether a character is ASCII whitespace.
pub fn is_space(c: char) -> (r: bool)
    ensures
        r == is_space_char(c),
{
    c == ' ' || c == '\t' || c == '\n' || c == '\r'
}

/// The sequence with its leading whitespace removed.
pub open spec fn trim_start_spec(s: Seq<char>) -> Seq<char>
    decreases s.len(),
{
    if s.len() > 0 && is_space_char(s[0]) {
        trim_start_spec(s.drop_first())
    } else {
        s
    }
}

/// The sequence with its trailing whitespace removed.
pub open spec fn trim_end_spec(s: Seq<char>) -> Seq<char>
    decreases s.len(),
{
    if s.len() > 0 && is_space_char(s.last()) {
        trim_end_spec(s.drop_last())
    } else {
        s
    }
}

/// The sequence with whitespace removed from both ends.
pub open spec fn trim_spec(s: Seq<char>) -> Seq<char> {
    trim_end_spec(trim_start_spec(s))
}

proof fn lemma_trim_start_skip(s: Seq<char>, a: int)
    requires
        0 <= a <= s.len(),
        forall|j: int| 0 <= j < a ==> is_space_char(s[j]),
        a < s.len() ==> !is_space_char(s[a]),
    ensures
        trim_start_spec(s) == s.skip(a),
    decreases a,
{
    if a == 0 {
        assert(s.skip(0) =~= s);
    } else {
        lemma_trim_start_skip(s.drop_first(), a - 1);
        assert(s.drop_first().skip(a - 1) =~= s.skip(a));
    }
}

proof fn lemma_trim_end_take(s: Seq<char>, b: int)
    requires
        0 <= b <= s.len(),
        forall|j: int| b <= j < s.len() ==> is_space_char(s[j]),
        b > 0 ==> !is_space_char(s[b - 1]),
    ensures
        trim_end_spec(s) == s.take(b),
    decreases s.len() - b,
{
    if b == s.len() {
        assert(s.take(b) =~= s);
    } else {
        assert(is_space_char(s.last()));
        lemma_trim_end_take(s.drop_last(), b);
        assert(s.drop_last().take(b) =~= s.take(b));
    }
}

/// The characters with whitespace removed from both ends.
pub fn trim(v: &Vec<char>) -> (r: Vec<char>)
    ensures
        r@ == trim_spec(v@),
{
    let n = v.len();
    let mut a: usize = 0;
    while a < n && is_space(v[a])
        invariant
            a <= n,
            n == v@.len(),
            forall|j: int| 0 <= j < a ==> is_space_char(v@[j]),
        decreases n - a,
    {
        a = a + 1;
    }
    let mut b: usize = n;
    while b > a && is_space(v[b - 1])
        invariant
            a <= b <= n,
            n == v@.len(),
            forall|j: int| b <= j < n ==> is_space_char(v@[j]),
        decreases b,
    {
        b = b - 1;
    }
    proof {
        lemma_trim_start_skip(v@, a as int);
        if b == a {
            lemma_trim_end_take(v@.skip(a as int), 0);
        } else {
            lemma_trim_end_take(v@.skip(a as int), b - a);
        }
    }
    let mut out: Vec<char> = Vec::new();
    let mut i: usize = a;
    while i < b
        invariant
            a <= i <= b <= n,
            n == v@.len(),
            out@ == v@.subrange(a as int, i as int),
        decreases b - i,
    {
        out.push(v[i]);
        proof {
            assert(out@ =~= v@.subrange(a as int, i + 1 as int));
        }
        i = i + 1;
    }
    proof {
        assert(v@.skip(a as int).take(b - a) =~= v@.subrange(a as int, b as int));
    }
    out
}

/// The position of the first space, if any.
pub open spec fn find_space(s: Seq<char>) -> Option<int>
    decreases s.len(),
{
    if s.len() == 0 {
        None
    } else if s[0] == ' ' {
        Some(0)
    } else {
        match find_space(s.drop_first()) {
            Some(i) => Some(i + 1),
            None => None,
        }
    }
}

/// The part of an input line before its first space: the command word.
pub open spec fn head_of(s: Seq<char>) -> Seq<char> {
    match find_space(s) {
        Some(i) => s.take(i),
        None => s,
    }
}

/// The part of an input line after its first space: the parameter text.
pub open spec fn params_of(s: Seq<char>) -> Option<Seq<char>> {
    match find_space(s) {
        Some(i) => Some(s.skip(i + 1)),
        None => None,
    }
}

proof fn lemma_find_space_scan(s: Seq<char>, i: int)
    requires
        0 <= i <= s.len(),
        forall|j: int| 0 <= j < i ==> s[j] != ' ',
    ensures
        i == s.len() ==> find_space(s) is None,
        i < s.len() && s[i] == ' ' ==> find_space(s) == Some(i),
    decreases i,
{
    if i == 0 {
    } else {
        lemma_find_space_scan(s.drop_first(), i - 1);
    }
}

/// Split an input line at its first space into the command word and the
/// parameter text; a line without a space has no parameter text.
pub fn split_command(v: &Vec<char>) -> (r: (Vec<char>, Option<Vec<char>>))
    ensures
        r.0@ == head_of(v@),
        match r.1 {
            Some(p) => params_of(v@) == Some(p@),
            None => params_of(v@) is None,
        },
{
    let n = v.len();
    let mut i: usize = 0;
    while i < n && v[i] != ' '
        invariant
            i <= n,
            n == v@.len(),
            forall|j: int| 0 <= j < i ==> v@[j] != ' ',
        decreases n - i,
    {
        i = i + 1;
    }
    proof {
        lemma_find_space_scan(v@, i as int);
    }
    let mut head: Vec<char> = Vec::new();
    let mut j: usize = 0;
    while j < i
        invariant
            j <= i <= n,
            n == v@.len(),
            head@ == v@.take(j as int),
        decreases i - j,
    {
        head.push(v[j]);
        proof {
            assert(head@ =~= v@.take(j + 1 as int));
        }
        j = j + 1;
    }
    if i == n {
        proof {
            assert(v@.take(n as int) =~= v@);
        }
        (head, None)
    } else {
        let mut rest: Vec<char> = Vec::new();
        let mut k: usize = i + 1;
        while k < n
            invariant
                i + 1 <= k <= n,
                n == v@.len(),
                rest@ == v@.subrange(i + 1 as int, k as int),
            decreases n - k,
        {
            rest.push(v[k]);
            proof {
                assert(rest@ =~= v@.subrange(i + 1 as int, k + 1 as int));
            }
            k = k + 1;
        }
        proof {
            assert(v@.subrange(i + 1 as int, n as int) =~= v@.skip(i + 1 as int));
        }
        (head, Some(rest))
    }
}

/// Relies on `String::push`: appends one character to the string.
#[verifier::external_body]
fn push_char(s: &mut String, c: char)
    ensures
        final(s)@ == old(s)@.push(c),
{
    s.push(c);
}

/// A string holding exactly the given characters.
pub fn string_of_chars(v: &Vec<char>) -> (r: String)
    ensures
        r@ == v@,
{
    let mut out = String::new();
    let mut i: usize = 0;
    while i < v.len()
        invariant
            i <= v.len(),
            out@ == v@.take(i as int),
        decreases v.len() - i,
    {
        push_char(&mut out, v[i]);
        proof {
            assert(out@ =~= v@.take(i + 1 as int));
        }
        i = i + 1;
    }
    proof {
        assert(v@.take(v@.len() as int) =~= v@);
    }
    out
}

} // verus!
