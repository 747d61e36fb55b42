//! Character-level text handling shared by the symbol, configuration and
//! protocol code: whitespace trimming, case folding, comparison, splitting on
//! separators, JSON string quoting and decimal rendering.

use vstd::prelude::*;

verus! {

/// Unicode `White_Space`, the set `char::is_whitespace` and `str::trim` use.
pub open spec fn is_white(c: char) -> bool {
    ||| ('\u{9}' <= c && c <= '\u{d}')
    ||| c == ' '
    ||| c == '\u{85}'
    ||| c == '\u{a0}'
    ||| c == '\u{1680}'
    ||| ('\u{2000}' <= c && c <= '\u{200a}')
    ||| c == '\u{2028}'
    ||| c == '\u{2029}'
    ||| c == '\u{202f}'
    ||| c == '\u{205f}'
    ||| c == '\u{3000}'
}

pub open spec fn trim_start(s: Seq<char>) -> Seq<char>
    decreases s.len(),
{
    if s.len() > 0 && is_white(s[0]) {
        trim_start(s.drop_first())
    } else {
        s
    }
}

pub open spec fn trim_end(s: Seq<char>) -> Seq<char>
    decreases s.len(),
{
    if s.len() > 0 && is_white(s.last()) {
        trim_end(s.drop_last())
    } else {
        s
    }
}

/// `str::trim`: leading and trailing whitespace removed.
pub open spec fn trim(s: Seq<char>) -> Seq<char> {
    trim_end(trim_start(s))
}

/// Text that is empty once trimmed.
pub open spec fn is_blank(s: Seq<char>) -> bool {
    forall|i: int| 0 <= i < s.len() ==> is_white(#[trigger] s[i])
}

/// What `str::to_uppercase` returns for a text (Unicode `Uppercase` mapping).
pub uninterp spec fn unicode_upper(s: Seq<char>) -> Seq<char>;

pub open spec fn ascii_upper_char(c: char) -> char {
    if 'a' <= c && c <= 'z' {
        ((c as int) - 32) as char
    } else {
        c
    }
}

pub open spec fn ascii_upper(s: Seq<char>) -> Seq<char> {
    Seq::new(s.len(), |i: int| ascii_upper_char(s[i]))
}

pub open spec fn is_ascii_text(s: Seq<char>) -> bool {
    forall|i: int| 0 <= i < s.len() ==> (#[trigger] s[i] as int) < 128
}

/// No ASCII lower-case letter.
pub open spec fn no_ascii_lower(s: Seq<char>) -> bool {
    forall|i: int| 0 <= i < s.len() ==> !('a' <= #[trigger] s[i] && s[i] <= 'z')
}

/// `str::to_uppercase`: letter by letter on ASCII text, the Unicode case
/// mapping otherwise.
pub open spec fn upper(t: Seq<char>) -> Seq<char> {
    if is_ascii_text(t) {
        ascii_upper(t)
    } else {
        unicode_upper(t)
    }
}

/// The normal form of a ticker or name: trimmed, then upper-cased.
pub open spec fn normalize(s: Seq<char>) -> Seq<char> {
    upper(trim(s))
}

pub open spec fn is_ascii_alpha(c: char) -> bool {
    ('A' <= c && c <= 'Z') || ('a' <= c && c <= 'z')
}

pub open spec fn starts_with(s: Seq<char>, p: Seq<char>) -> bool {
    p.len() <= s.len() && s.subrange(0, p.len() as int) == p
}

proof fn lemma_trim_start_step(s: Seq<char>, i: int)
    requires
        0 <= i < s.len(),
        is_white(s[i]),
    ensures
        trim_start(s.subrange(i, s.len() as int)) == trim_start(s.subrange(i + 1, s.len() as int)),
{
    assert(s.subrange(i, s.len() as int).drop_first() =~= s.subrange(i + 1, s.len() as int));
}

proof fn lemma_trim_end_step(s: Seq<char>, j: int)
    requires
        0 < j <= s.len(),
        is_white(s[j - 1]),
    ensures
        trim_end(s.subrange(0, j)) == trim_end(s.subrange(0, j - 1)),
{
    assert(s.subrange(0, j).drop_last() =~= s.subrange(0, j - 1));
}

proof fn lemma_trim_start_all_white(s: Seq<char>)
    requires is_blank(s),
    ensures trim_start(s).len() == 0,
    decreases s.len(),
{
    if s.len() > 0 {
        assert(is_white(s[0]));
        lemma_trim_start_all_white(s.drop_first());
    }
}

/// A text that is already in normal form: no blank at either end, ASCII
/// only, no lower-case letter.
pub proof fn lemma_normalize_fixed(s: Seq<char>)
    requires
        s.len() > 0,
        !is_white(s[0]),
        !is_white(s.last()),
        is_ascii_text(s),
        no_ascii_lower(s),
    ensures
        normalize(s) == s,
{
    assert(trim_start(s) == s);
    assert(trim_end(s) == s);
    assert(ascii_upper(s) =~= s);
}

/// An ASCII text already in normal form: not empty, no blank at either
/// end, no lower-case letter.
pub open spec fn in_ascii_normal_form(t: Seq<char>) -> bool {
    &&& t.len() > 0
    &&& !is_white(t[0])
    &&& !is_white(t.last())
    &&& is_ascii_text(t)
    &&& no_ascii_lower(t)
}

proof fn lemma_trim_start_head(s: Seq<char>)
    ensures
        trim_start(s).len() <= s.len(),
        trim_start(s).len() > 0 ==> !is_white(trim_start(s)[0]),
    decreases s.len(),
{
    if s.len() > 0 && is_white(s[0]) {
        lemma_trim_start_head(s.drop_first());
    }
}

proof fn lemma_trim_end_ends(x: Seq<char>)
    ensures
        trim_end(x).len() <= x.len(),
        trim_end(x).len() > 0 ==> trim_end(x)[0] == x[0] && !is_white(trim_end(x).last()),
    decreases x.len(),
{
    if x.len() > 0 && is_white(x.last()) {
        lemma_trim_end_ends(x.drop_last());
    }
}

/// A trimmed text is empty or has no blank at either end.
proof fn lemma_trim_ends(s: Seq<char>)
    ensures
        trim(s).len() > 0 ==> !is_white(trim(s)[0]) && !is_white(trim(s).last()),
{
    lemma_trim_start_head(s);
    lemma_trim_end_ends(trim_start(s));
}

/// Normalising is settled after one pass on text whose trimmed form is
/// ASCII: its normal form is empty or in ASCII normal form, and
/// normalising that again changes nothing.
pub proof fn lemma_normalize_idempotent(s: Seq<char>)
    requires
        is_ascii_text(trim(s)),
    ensures
        normalize(s).len() > 0 ==> in_ascii_normal_form(normalize(s)),
        normalize(normalize(s)) == normalize(s),
{
    let t = trim(s);
    let a = ascii_upper(t);
    assert(normalize(s) == a);
    if t.len() == 0 {
        assert(a =~= Seq::<char>::empty());
        assert(trim_start(a) == a);
        assert(trim_end(a) == a);
        assert(ascii_upper(a) =~= a);
    } else {
        lemma_trim_ends(s);
        assert(is_ascii_text(a));
        assert(no_ascii_lower(a));
        assert(a[0] == ascii_upper_char(t[0]));
        assert(a.last() == ascii_upper_char(t.last()));
        lemma_normalize_fixed(a);
    }
}

/// `str::trim`.
pub fn trim_str(s: &str) -> (r: &str)
    ensures
        r@ == trim(s@),
{
    let n = s.unicode_len();
    let mut i: usize = 0;
    assert(s@.subrange(0, n as int) =~= s@);
    while i < n && is_white_char(s.get_char(i))
        invariant
            n == s@.len(),
            0 <= i <= n,
            trim_start(s@) == trim_start(s@.subrange(i as int, n as int)),
        decreases n - i,
    {
        proof {
            lemma_trim_start_step(s@, i as int);
        }
        i = i + 1;
    }
    let ghost front = s@.subrange(i as int, n as int);
    assert(trim_start(s@) == front) by {
        if i < n {
            assert(!is_white(front[0]));
        } else {
            assert(front.len() == 0);
        }
    }
    let mut j: usize = n;
    while j > i && is_white_char(s.get_char(j - 1))
        invariant
            n == s@.len(),
            i <= j <= n,
            front == s@.subrange(i as int, n as int),
            trim_end(front) == trim_end(s@.subrange(i as int, j as int)),
        decreases j,
    {
        proof {
            let t = s@.subrange(i as int, n as int);
            lemma_trim_end_step(s@.subrange(i as int, n as int), (j - i) as int);
            assert(t.subrange(0, (j - i) as int) =~= s@.subrange(i as int, j as int));
            assert(t.subrange(0, (j - i - 1) as int) =~= s@.subrange(i as int, (j - 1) as int));
        }
        j = j - 1;
    }
    let r = s.substring_char(i, j);
    assert(trim_end(s@.subrange(i as int, j as int)) == s@.subrange(i as int, j as int)) by {
        let t = s@.subrange(i as int, j as int);
        if j > i {
            assert(!is_white(t.last()));
        }
    }
    r
}

/// `char::is_whitespace`.
pub fn is_white_char(c: char) -> (r: bool)
    ensures
        r == is_white(c),
{
    ('\u{9}' <= c && c <= '\u{d}') || c == ' ' || c == '\u{85}' || c == '\u{a0}' || c == '\u{1680}'
        || ('\u{2000}' <= c && c <= '\u{200a}') || c == '\u{2028}' || c == '\u{2029}' || c
        == '\u{202f}' || c == '\u{205f}' || c == '\u{3000}'
}

/// `s.trim().is_empty()`: the text holds whitespace only.
pub fn is_blank_str(s: &str) -> (r: bool)
    ensures
        r == is_blank(s@),
        r == (trim(s@).len() == 0),
{
    let n = s.unicode_len();
    let mut i: usize = 0;
    while i < n
        invariant
            n == s@.len(),
            0 <= i <= n,
            forall|k: int| 0 <= k < i ==> is_white(#[trigger] s@[k]),
        decreases n - i,
    {
        if !is_white_char(s.get_char(i)) {
            proof {
                lemma_trim_keeps_non_white(s@, i as int);
            }
            return false;
        }
        i = i + 1;
    }
    proof {
        lemma_trim_start_all_white(s@);
        assert(trim_start(s@).len() == 0);
        assert(trim(s@) == trim_end(trim_start(s@)));
        assert(trim_end(trim_start(s@)) =~= trim_start(s@));
    }
    true
}

proof fn lemma_trim_start_suffix(s: Seq<char>)
    ensures
        exists|k: int|
            0 <= k <= s.len() && trim_start(s) == s.subrange(k, s.len() as int) && (forall|m: int|
                0 <= m < k ==> is_white(#[trigger] s[m])),
    decreases s.len(),
{
    if s.len() > 0 && is_white(s[0]) {
        lemma_trim_start_suffix(s.drop_first());
        let k = choose|k: int|
            0 <= k <= s.drop_first().len() && trim_start(s.drop_first()) == s.drop_first().subrange(
                k,
                s.drop_first().len() as int,
            ) && (forall|m: int| 0 <= m < k ==> is_white(#[trigger] s.drop_first()[m]));
        assert(s.drop_first().subrange(k, s.drop_first().len() as int) =~= s.subrange(
            k + 1,
            s.len() as int,
        ));
        assert forall|m: int| 0 <= m < k + 1 implies is_white(#[trigger] s[m]) by {
            if m > 0 {
                assert(s[m] == s.drop_first()[m - 1]);
            }
        }
    } else {
        assert(s.subrange(0, s.len() as int) =~= s);
    }
}

proof fn lemma_trim_end_prefix(s: Seq<char>)
    ensures
        exists|k: int|
            0 <= k <= s.len() && trim_end(s) == s.subrange(0, k) && (forall|m: int|
                k <= m < s.len() ==> is_white(#[trigger] s[m])),
    decreases s.len(),
{
    if s.len() > 0 && is_white(s.last()) {
        lemma_trim_end_prefix(s.drop_last());
        let k = choose|k: int|
            0 <= k <= s.drop_last().len() && trim_end(s.drop_last()) == s.drop_last().subrange(0, k)
                && (forall|m: int| k <= m < s.drop_last().len() ==> is_white(#[trigger] s.drop_last()[m]));
        assert(s.drop_last().subrange(0, k) =~= s.subrange(0, k));
        assert forall|m: int| k <= m < s.len() implies is_white(#[trigger] s[m]) by {
            if m < s.len() - 1 {
                assert(s[m] == s.drop_last()[m]);
            }
        }
    } else {
        assert(s.subrange(0, s.len() as int) =~= s);
    }
}

/// A text with a non-whitespace character keeps it once trimmed.
proof fn lemma_trim_keeps_non_white(s: Seq<char>, i: int)
    requires
        0 <= i < s.len(),
        !is_white(s[i]),
    ensures
        trim(s).len() > 0,
{
    lemma_trim_start_suffix(s);
    let k = choose|k: int|
        0 <= k <= s.len() && trim_start(s) == s.subrange(k, s.len() as int) && (forall|m: int|
            0 <= m < k ==> is_white(#[trigger] s[m]));
    assert(k <= i);
    let t = trim_start(s);
    lemma_trim_end_prefix(t);
    let k2 = choose|k2: int|
        0 <= k2 <= t.len() && trim_end(t) == t.subrange(0, k2) && (forall|m: int|
            k2 <= m < t.len() ==> is_white(#[trigger] t[m]));
    assert(t[i - k] == s[i]);
    assert(k2 > i - k);
}

/// `c.is_ascii_alphabetic()`.
pub fn is_ascii_alpha_char(c: char) -> (r: bool)
    ensures
        r == is_ascii_alpha(c),
{
    ('A' <= c && c <= 'Z') || ('a' <= c && c <= 'z')
}

/// `str::to_uppercase`: the Unicode upper-case form of a text.
///
/// The contract names the result `unicode_upper` and states two facts of
/// it: a text made of ASCII characters maps letter by letter, `a`..`z` to
/// `A`..`Z`, every other ASCII character unchanged; and no ASCII lower-case
/// letter is left in any result (each maps to its capital, and no
/// character's upper-case mapping holds one). The rest of the Unicode case
/// mapping is not stated.
#[verifier::external_body]
pub(crate) fn to_upper(s: &str) -> (r: String)
    ensures
        r@ == unicode_upper(s@),
        is_ascii_text(s@) ==> r@ == ascii_upper(s@),
        no_ascii_lower(r@),
{
    s.to_uppercase()
}

/// `s.trim().to_uppercase()`.
pub fn normalize_str(s: &str) -> (r: String)
    ensures
        r@ == normalize(s@),
        no_ascii_lower(r@),
{
    to_upper(trim_str(s))
}

/// Character-wise equality of two texts.
pub fn text_eq(a: &str, b: &str) -> (r: bool)
    ensures
        r == (a@ == b@),
{
    let n = a.unicode_len();
    let m = b.unicode_len();
    if n != m {
        return false;
    }
    let mut i: usize = 0;
    while i < n
        invariant
            n == a@.len(),
            m == b@.len(),
            n == m,
            0 <= i <= n,
            forall|k: int| 0 <= k < i ==> a@[k] == b@[k],
        decreases n - i,
    {
        if a.get_char(i) != b.get_char(i) {
            return false;
        }
        i = i + 1;
    }
    assert(a@ =~= b@);
    true
}

/// `s.starts_with(p)`.
pub fn text_starts_with(s: &str, p: &str) -> (r: bool)
    ensures
        r == starts_with(s@, p@),
{
    let n = s.unicode_len();
    let m = p.unicode_len();
    if m > n {
        return false;
    }
    let mut i: usize = 0;
    while i < m
        invariant
            n == s@.len(),
            m == p@.len(),
            m <= n,
            0 <= i <= m,
            forall|k: int| 0 <= k < i ==> s@[k] == p@[k],
        decreases m - i,
    {
        if s.get_char(i) != p.get_char(i) {
            return false;
        }
        i = i + 1;
    }
    assert(s@.subrange(0, m as int) =~= p@);
    true
}

/// Copies a text into an owned `String`.
pub fn owned(s: &str) -> (r: String)
    ensures
        r@ == s@,
{
    String::from_str(s)
}

/// Lexicographic order of texts by character code (the order in which
/// `sort` puts `String`s, UTF-8 preserving the order of code points).
pub open spec fn text_less(a: Seq<char>, b: Seq<char>) -> bool
    decreases a.len(),
{
    if a.len() == 0 {
        b.len() > 0
    } else if b.len() == 0 {
        false
    } else if a[0] == b[0] {
        text_less(a.skip(1), b.skip(1))
    } else {
        (a[0] as int) < (b[0] as int)
    }
}

pub proof fn lemma_text_less_irreflexive(a: Seq<char>)
    ensures
        !text_less(a, a),
    decreases a.len(),
{
    if a.len() > 0 {
        lemma_text_less_irreflexive(a.skip(1));
    }
}

pub proof fn lemma_text_less_asymmetric(a: Seq<char>, b: Seq<char>)
    ensures
        text_less(a, b) ==> !text_less(b, a),
    decreases a.len(),
{
    if a.len() > 0 && b.len() > 0 && a[0] == b[0] {
        lemma_text_less_asymmetric(a.skip(1), b.skip(1));
    }
}

pub proof fn lemma_text_less_total(a: Seq<char>, b: Seq<char>)
    ensures
        a != b ==> text_less(a, b) || text_less(b, a),
    decreases a.len(),
{
    if a.len() > 0 && b.len() > 0 && a[0] == b[0] {
        lemma_text_less_total(a.skip(1), b.skip(1));
        if a.skip(1) == b.skip(1) {
            assert(a =~= seq![a[0]] + a.skip(1));
            assert(b =~= seq![b[0]] + b.skip(1));
        }
    } else if a.len() == 0 && b.len() == 0 {
        assert(a =~= b);
    }
}

pub proof fn lemma_text_less_transitive(a: Seq<char>, b: Seq<char>, c: Seq<char>)
    ensures
        text_less(a, b) && text_less(b, c) ==> text_less(a, c),
    decreases a.len(),
{
    if a.len() > 0 && b.len() > 0 && c.len() > 0 && a[0] == b[0] && b[0] == c[0] {
        lemma_text_less_transitive(a.skip(1), b.skip(1), c.skip(1));
    }
}

/// `a < b` for texts.
pub fn text_lt(a: &str, b: &str) -> (r: bool)
    ensures
        r == text_less(a@, b@),
{
    let n = a.unicode_len();
    let m = b.unicode_len();
    let mut i: usize = 0;
    assert(a@.skip(0) =~= a@ && b@.skip(0) =~= b@);
    while i < n && i < m
        invariant
            n == a@.len(),
            m == b@.len(),
            0 <= i <= n,
            i <= m,
            text_less(a@, b@) == text_less(a@.skip(i as int), b@.skip(i as int)),
        decreases n - i,
    {
        let ca = a.get_char(i);
        let cb = b.get_char(i);
        assert(a@.skip(i as int)[0] == ca && b@.skip(i as int)[0] == cb);
        if ca != cb {
            return (ca as u32) < (cb as u32);
        }
        assert(a@.skip(i as int).skip(1) =~= a@.skip(i + 1));
        assert(b@.skip(i as int).skip(1) =~= b@.skip(i + 1));
        i = i + 1;
    }
    i == n && i < m
}

/// The characters of each text of a list.
pub open spec fn texts(v: Seq<String>) -> Seq<Seq<char>> {
    v.map_values(|s: String| s@)
}

pub proof fn lemma_texts_push(v: Seq<String>, x: String)
    ensures
        texts(v.push(x)) == texts(v).push(x@),
{
    let a = texts(v.push(x));
    let b = texts(v).push(x@);
    assert forall|i: int| 0 <= i < a.len() implies a[i] == b[i] by {
        if i < v.len() {
            assert(v.push(x)[i] == v[i]);
        }
    }
    assert(a =~= b);
}

/// Whether `p` occurs in `s` at position `i`.
pub open spec fn occurs_at(s: Seq<char>, p: Seq<char>, i: int) -> bool {
    0 <= i && i + p.len() <= s.len() && s.subrange(i, i + p.len()) == p
}

/// Whether `p` occurs somewhere in `s`.
pub open spec fn contains_text(s: Seq<char>, p: Seq<char>) -> bool {
    exists|i: int| occurs_at(s, p, i)
}

/// `s.contains(p)` for a text pattern.
pub fn text_contains(s: &str, p: &str) -> (r: bool)
    ensures
        r == contains_text(s@, p@),
{
    let n = s.unicode_len();
    let m = p.unicode_len();
    if m > n {
        assert forall|i: int| !occurs_at(s@, p@, i) by {}
        return false;
    }
    let mut i: usize = 0;
    while i <= n - m
        invariant
            n == s@.len(),
            m == p@.len(),
            m <= n,
            0 <= i <= n - m + 1,
            forall|k: int| 0 <= k < i ==> !occurs_at(s@, p@, k),
        decreases n - i,
    {
        let mut j: usize = 0;
        let mut same = true;
        while j < m
            invariant
                n == s@.len(),
                m == p@.len(),
                i + m <= n,
                0 <= j <= m,
                same == (forall|k: int| 0 <= k < j ==> s@[i + k] == p@[k]),
            decreases m - j,
        {
            if s.get_char(i + j) != p.get_char(j) {
                same = false;
            }
            j = j + 1;
        }
        if same {
            assert(s@.subrange(i as int, i + m) =~= p@);
            assert(occurs_at(s@, p@, i as int));
            return true;
        }
        proof {
            assert(!(forall|k: int| 0 <= k < m ==> s@[i + k] == p@[k]));
            let k = choose|k: int| 0 <= k < m && s@[i + k] != p@[k];
            if occurs_at(s@, p@, i as int) {
                assert(s@.subrange(i as int, i + m)[k] == s@[i + k]);
            }
        }
        i = i + 1;
    }
    false
}

/// Concatenation of two texts.
pub fn concat(a: &str, b: &str) -> (r: String)
    ensures
        r@ == a@ + b@,
{
    let mut r = String::from_str(a);
    r.append(b);
    r
}

/// JSON escape of one character, as serde_json writes it inside a string.
pub open spec fn json_escape(c: char) -> Seq<char> {
    if c == '"' {
        seq!['\\', '"']
    } else if c == '\\' {
        seq!['\\', '\\']
    } else if c == '\u{8}' {
        seq!['\\', 'b']
    } else if c == '\t' {
        seq!['\\', 't']
    } else if c == '\n' {
        seq!['\\', 'n']
    } else if c == '\u{c}' {
        seq!['\\', 'f']
    } else if c == '\r' {
        seq!['\\', 'r']
    } else if (c as int) < 0x20 {
        seq!['\\', 'u', '0', '0', hex_digit((c as int) / 16), hex_digit((c as int) % 16)]
    } else {
        seq![c]
    }
}

pub open spec fn hex_digit(d: int) -> char {
    if d < 10 {
        (('0' as int) + d) as char
    } else {
        (('a' as int) + d - 10) as char
    }
}

pub open spec fn json_escaped(s: Seq<char>) -> Seq<char>
    decreases s.len(),
{
    if s.len() == 0 {
        seq![]
    } else {
        json_escaped(s.drop_last()) + json_escape(s.last())
    }
}

/// A text written as a JSON string literal.
pub open spec fn json_quoted(s: Seq<char>) -> Seq<char> {
    seq!['"'] + json_escaped(s) + seq!['"']
}

/// `serde_json::Value::String(s).to_string()`: the text as a compact JSON
/// string literal. The contract states serde_json's escaping table
/// (`ser.rs`, `ESCAPE`): quote, backslash and control characters are
/// escaped, everything else is copied.
#[verifier::external_body]
pub(crate) fn json_quote(s: &str) -> (r: String)
    ensures
        r@ == json_quoted(s@),
{
    serde_json::Value::String(s.to_string()).to_string()
}

/// What the library reads of a JSON reply: on a parse failure the error's
/// text, otherwise the string values of the top-level keys `status` and
/// `message` (`None` where the key is missing or not a string).
pub uninterp spec fn json_reply_fields(text: Seq<char>) -> Result<
    (Option<Seq<char>>, Option<Seq<char>>),
    Seq<char>,
>;

pub open spec fn opt_text_view(o: Option<String>) -> Option<Seq<char>> {
    match o {
        Some(s) => Some(s@),
        None => None,
    }
}

pub open spec fn reply_view(r: Result<(Option<String>, Option<String>), String>) -> Result<
    (Option<Seq<char>>, Option<Seq<char>>),
    Seq<char>,
> {
    match r {
        Ok((a, b)) => Ok((opt_text_view(a), opt_text_view(b))),
        Err(e) => Err(e@),
    }
}

/// `serde_json::from_str::<serde_json::Value>(text)`, keeping the string
/// values of `status` and `message` (`Value::as_str` of each key), or the
/// error's `to_string()` when the text is not JSON. The contract names the
/// result `json_reply_fields`; the grammar of JSON is not restated.
#[verifier::external_body]
pub(crate) fn parse_reply(text: &str) -> (r: Result<(Option<String>, Option<String>), String>)
    ensures
        reply_view(r) == json_reply_fields(text@),
{
    match serde_json::from_str::<serde_json::Value>(text) {
        Ok(v) => Ok((v["status"].as_str().map(|s| s.to_string()), v["message"].as_str().map(|s| s.to_string()))),
        Err(e) => Err(e.to_string()),
    }
}

/// Decimal digits of a natural number, as `Display` writes it.
pub open spec fn decimal(n: nat) -> Seq<char>
    decreases n,
{
    if n < 10 {
        seq![(('0' as int) + n) as char]
    } else {
        decimal(n / 10).push((('0' as int) + (n % 10)) as char)
    }
}

/// Decimal text of a signed number, as `Display` writes it.
pub open spec fn signed_decimal(n: int) -> Seq<char> {
    if n < 0 {
        seq!['-'] + decimal((-n) as nat)
    } else {
        decimal(n as nat)
    }
}

fn digit_text(d: u64) -> (r: &'static str)
    requires
        d < 10,
    ensures
        r@ == seq![(('0' as int) + d) as char],
{
    proof {
        reveal_strlit("0");
        reveal_strlit("1");
        reveal_strlit("2");
        reveal_strlit("3");
        reveal_strlit("4");
        reveal_strlit("5");
        reveal_strlit("6");
        reveal_strlit("7");
        reveal_strlit("8");
        reveal_strlit("9");
    }
    match d {
        0 => "0",
        1 => "1",
        2 => "2",
        3 => "3",
        4 => "4",
        5 => "5",
        6 => "6",
        7 => "7",
        8 => "8",
        _ => "9",
    }
}

/// The decimal text of `n`.
pub fn u64_to_text(n: u64) -> (r: String)
    ensures
        r@ == decimal(n as nat),
    decreases n,
{
    if n < 10 {
        owned(digit_text(n))
    } else {
        let mut r = u64_to_text(n / 10);
        r.append(digit_text(n % 10));
        r
    }
}

/// The decimal text of `n`, with a leading `-` when negative.
pub fn i64_to_text(n: i64) -> (r: String)
    ensures
        r@ == signed_decimal(n as int),
{
    if n < 0 {
        let m: u64 = if n == i64::MIN {
            9_223_372_036_854_775_808u64
        } else {
            (-n) as u64
        };
        proof {
            reveal_strlit("-");
        }
        concat("-", u64_to_text(m).as_str())
    } else {
        u64_to_text(n as u64)
    }
}

} // verus!
