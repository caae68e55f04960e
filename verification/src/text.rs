//! Clean-up of recognised text: folding of full-width and Cyrillic look-alike
//! characters, repair of common OCR confusions, and the choice and merge of
//! candidate readings.
use vstd::prelude::*;
use crate::chars::{chars_of, string_of, is_digit, spec_is_digit};

verus! {

/// The character that `c` is folded to: full-width punctuation, digits and
/// Latin letters become their ASCII forms, and Cyrillic letters that look like
/// Latin ones become those Latin letters. Every other character is kept.
pub open spec fn fold_char(c: char) -> char {
    let u = c as u32;
    if u == 0xFF08 { '(' }
    else if u == 0xFF09 { ')' }
    else if u == 0xFF3B { '[' }
    else if u == 0xFF3D { ']' }
    else if u == 0xFF5B { '{' }
    else if u == 0xFF5D { '}' }
    else if u == 0xFF1A { ':' }
    else if u == 0xFF1B { ';' }
    else if u == 0xFF0C { ',' }
    else if u == 0xFF0E { '.' }
    else if 0xFF10 <= u <= 0xFF19 { ((u - 0xFF10 + 0x30) as u8) as char }
    else if 0xFF21 <= u <= 0xFF3A { ((u - 0xFF21 + 0x41) as u8) as char }
    else if 0xFF41 <= u <= 0xFF5A { ((u - 0xFF41 + 0x61) as u8) as char }
    else if u == 0x0410 { 'A' }
    else if u == 0x0412 { 'B' }
    else if u == 0x0415 { 'E' }
    else if u == 0x0406 { 'I' }
    else if u == 0x041A { 'K' }
    else if u == 0x041C { 'M' }
    else if u == 0x041D { 'H' }
    else if u == 0x041E { 'O' }
    else if u == 0x0420 { 'P' }
    else if u == 0x0421 { 'C' }
    else if u == 0x0422 { 'T' }
    else if u == 0x0425 { 'X' }
    else if u == 0x0430 { 'a' }
    else if u == 0x0435 { 'e' }
    else if u == 0x0456 { 'i' }
    else if u == 0x043E { 'o' }
    else if u == 0x0440 { 'p' }
    else if u == 0x0441 { 'c' }
    else if u == 0x0443 { 'y' }
    else if u == 0x0445 { 'x' }
    else { c }
}

/// The folded form of a whole text, character by character.
pub open spec fn normalize_spec(s: Seq<char>) -> Seq<char> {
    s.map_values(|c: char| fold_char(c))
}

pub fn fold(c: char) -> (r: char)
    ensures
        r == fold_char(c),
{
    let u = c as u32;
    if u == 0xFF08 { '(' }
    else if u == 0xFF09 { ')' }
    else if u == 0xFF3B { '[' }
    else if u == 0xFF3D { ']' }
    else if u == 0xFF5B { '{' }
    else if u == 0xFF5D { '}' }
    else if u == 0xFF1A { ':' }
    else if u == 0xFF1B { ';' }
    else if u == 0xFF0C { ',' }
    else if u == 0xFF0E { '.' }
    else if 0xFF10 <= u && u <= 0xFF19 { ((u - 0xFF10 + 0x30) as u8) as char }
    else if 0xFF21 <= u && u <= 0xFF3A { ((u - 0xFF21 + 0x41) as u8) as char }
    else if 0xFF41 <= u && u <= 0xFF5A { ((u - 0xFF41 + 0x61) as u8) as char }
    else if u == 0x0410 { 'A' }
    else if u == 0x0412 { 'B' }
    else if u == 0x0415 { 'E' }
    else if u == 0x0406 { 'I' }
    else if u == 0x041A { 'K' }
    else if u == 0x041C { 'M' }
    else if u == 0x041D { 'H' }
    else if u == 0x041E { 'O' }
    else if u == 0x0420 { 'P' }
    else if u == 0x0421 { 'C' }
    else if u == 0x0422 { 'T' }
    else if u == 0x0425 { 'X' }
    else if u == 0x0430 { 'a' }
    else if u == 0x0435 { 'e' }
    else if u == 0x0456 { 'i' }
    else if u == 0x043E { 'o' }
    else if u == 0x0440 { 'p' }
    else if u == 0x0441 { 'c' }
    else if u == 0x0443 { 'y' }
    else if u == 0x0445 { 'x' }
    else { c }
}

/// Folds every character of `s`.
pub fn normalize_chars(s: &Vec<char>) -> (r: Vec<char>)
    ensures
        r@ == normalize_spec(s@),
{
    let mut r: Vec<char> = Vec::new();
    for i in 0..s.len()
        invariant
            r@ == normalize_spec(s@.take(i as int)),
    {
        r.push(fold(s[i]));
        assert(s@.take(i + 1) == s@.take(i as int).push(s@[i as int]));
    }
    assert(s@.take(s.len() as int) == s@);
    r
}

/// Replaces full-width forms and Cyrillic look-alikes by their ASCII
/// counterparts.
pub fn normalize_fullwidth(s: &str) -> (r: String)
    ensures
        r@ == normalize_spec(s@),
{
    let v = chars_of(s);
    let n = normalize_chars(&v);
    string_of(&n)
}

} // verus!

verus! {

/// Cyrillic small letter ha, which OCR reads for a multiplication sign or for
/// the second letter of the unit "px".
pub open spec fn cyr_ha() -> char { '\u{0445}' }

/// Cyrillic small letter er, read for the Latin "p" of "px".
pub open spec fn cyr_er() -> char { '\u{0440}' }

/// At `i` stands a Cyrillic ha or an asterisk with a digit on each side.
pub open spec fn is_times_at(s: Seq<char>, i: int) -> bool {
    &&& (s[i] == cyr_ha() || s[i] == '*')
    &&& i > 0
    &&& i + 1 < s.len()
    &&& spec_is_digit(s[i - 1])
    &&& spec_is_digit(s[i + 1])
}

/// The start of the run of spaces that ends just before `j`.
pub open spec fn skip_spaces_back(s: Seq<char>, j: int) -> int
    decreases j,
{
    if j > 0 && s[j - 1] == ' ' {
        skip_spaces_back(s, j - 1)
    } else {
        j
    }
}

/// At `i` stands the Cyrillic pair er-ha, preceded (across spaces) by a digit.
pub open spec fn is_px_at(s: Seq<char>, i: int) -> bool {
    &&& i + 1 < s.len()
    &&& s[i] == cyr_er()
    &&& s[i + 1] == cyr_ha()
    &&& {
        let j = skip_spaces_back(s, i);
        j > 0 && spec_is_digit(s[j - 1])
    }
}

/// The repaired text from position `i` on, read left to right: a
/// multiplication sign for an `is_times_at` character, "px" for an
/// `is_px_at` pair, and every other character as it is.
pub open spec fn fix_from(s: Seq<char>, i: int) -> Seq<char>
    decreases s.len() - i,
{
    if i < 0 || i >= s.len() {
        Seq::empty()
    } else if is_times_at(s, i) {
        seq!['\u{00D7}'] + fix_from(s, i + 1)
    } else if is_px_at(s, i) {
        seq!['p', 'x'] + fix_from(s, i + 2)
    } else {
        seq![s[i]] + fix_from(s, i + 1)
    }
}

pub open spec fn fix_spec(s: Seq<char>) -> Seq<char> {
    fix_from(s, 0)
}

/// Repairing never changes the number of characters.
pub proof fn lemma_fix_from_len(s: Seq<char>, i: int)
    requires
        0 <= i <= s.len(),
    ensures
        fix_from(s, i).len() == s.len() - i,
    decreases s.len() - i,
{
    if i < s.len() {
        if is_times_at(s, i) {
            lemma_fix_from_len(s, i + 1);
        } else if is_px_at(s, i) {
            lemma_fix_from_len(s, i + 2);
        } else {
            lemma_fix_from_len(s, i + 1);
        }
    }
}

/// Repairs characters that OCR confuses in measurements: a Cyrillic ha or an
/// asterisk between two digits becomes a multiplication sign, and a
/// Cyrillic "px" after a number becomes the Latin unit "px".
pub fn fix_ocr_chars(s: &Vec<char>) -> (r: Vec<char>)
    ensures
        r@ == fix_spec(s@),
        r@.len() == s@.len(),
{
    let n = s.len();
    let mut out: Vec<char> = Vec::new();
    let mut i: usize = 0;
    while i < n
        invariant
            n == s@.len(),
            i <= n,
            out@ + fix_from(s@, i as int) == fix_from(s@, 0),
        decreases n - i,
    {
        let ghost prev = out@;
        let c = s[i];
        if (c == '\u{0445}' || c == '*') && i > 0 && i + 1 < n && is_digit(s[i - 1])
            && is_digit(s[i + 1]) {
            out.push('\u{00D7}');
            assert(prev + fix_from(s@, i as int) == out@ + fix_from(s@, i + 1));
            i += 1;
            continue;
        }
        if i + 1 < n && c == '\u{0440}' && s[i + 1] == '\u{0445}' {
            let mut j: usize = i;
            while j > 0 && s[j - 1] == ' '
                invariant
                    j <= i < n,
                    n == s@.len(),
                    skip_spaces_back(s@, j as int) == skip_spaces_back(s@, i as int),
                decreases j,
            {
                j -= 1;
            }
            if j > 0 && is_digit(s[j - 1]) {
                out.push('p');
                out.push('x');
                assert(prev + fix_from(s@, i as int) == out@ + fix_from(s@, i + 2));
                i += 2;
                continue;
            }
        }
        out.push(c);
        assert(prev + fix_from(s@, i as int) == out@ + fix_from(s@, i + 1));
        i += 1;
    }
    proof {
        lemma_fix_from_len(s@, 0);
    }
    out
}

/// `fix_ocr_chars` on a string.
pub fn fix_ocr_result(s: &str) -> (r: String)
    ensures
        r@ == fix_spec(s@),
        r@.len() == s@.len(),
{
    let v = chars_of(s);
    let f = fix_ocr_chars(&v);
    string_of(&f)
}

} // verus!

verus! {

/// Folding a folded character changes nothing.
pub proof fn lemma_fold_char_idempotent(c: char)
    ensures
        fold_char(fold_char(c)) == fold_char(c),
{
    let u = c as u32;
    if 0xFF10 <= u <= 0xFF19 {
        let v = ((u - 0xFF10 + 0x30) as u8);
        assert((v as char) as u32 == v as u32);
    } else if 0xFF21 <= u <= 0xFF3A {
        let v = ((u - 0xFF21 + 0x41) as u8);
        assert((v as char) as u32 == v as u32);
    } else if 0xFF41 <= u <= 0xFF5A {
        let v = ((u - 0xFF41 + 0x61) as u8);
        assert((v as char) as u32 == v as u32);
    }
}

/// Folding keeps the length of a text, and folding twice is folding once.
pub proof fn lemma_normalize_idempotent(s: Seq<char>)
    ensures
        normalize_spec(s).len() == s.len(),
        normalize_spec(normalize_spec(s)) == normalize_spec(s),
{
    assert forall|i: int| 0 <= i < s.len() implies #[trigger] normalize_spec(normalize_spec(s))[i]
        == normalize_spec(s)[i] by {
        lemma_fold_char_idempotent(s[i]);
    }
    assert(normalize_spec(normalize_spec(s)) =~= normalize_spec(s));
}

} // verus!

verus! {

/// The repaired text from `i` on keeps, position by position, which
/// characters are digits and which are spaces; the look-alike letters and
/// the asterisk it still holds are those of the input, and none of them is
/// left where a repair would apply.
pub(crate) proof fn lemma_fix_from_shape(s: Seq<char>, i: int)
    requires
        0 <= i <= s.len(),
    ensures
        ({
            let g = fix_from(s, i);
            &&& g.len() == s.len() - i
            &&& forall|k: int| 0 <= k < g.len() ==> #[trigger] g[k] == s[i + k] || g[k] == '\u{00D7}' || g[k]
                == 'p' || g[k] == 'x'
            &&& forall|k: int| 0 <= k < g.len() ==> (spec_is_digit(#[trigger] g[k]) <==> spec_is_digit(s[i + k]))
            &&& forall|k: int| 0 <= k < g.len() ==> ((#[trigger] g[k] == ' ') <==> s[i + k] == ' ')
            &&& forall|k: int| 0 <= k < g.len() && (#[trigger] g[k] == cyr_ha() || g[k] == '*') ==> g[k] == s[i + k]
                && !is_times_at(s, i + k)
            &&& forall|k: int| 0 <= k < g.len() && #[trigger] g[k] == cyr_er() ==> s[i + k] == cyr_er()
            &&& forall|k: int|
                0 <= k && k + 1 < g.len() && #[trigger] g[k] == cyr_er() && g[k + 1] == cyr_ha() ==> !is_px_at(s, i + k)
        }),
    decreases s.len() - i,
{
    lemma_fix_from_len(s, i);
    if i < s.len() {
        let g = fix_from(s, i);
        if is_times_at(s, i) {
            lemma_fix_from_shape(s, i + 1);
            let t = fix_from(s, i + 1);
            assert(g == seq!['\u{00D7}'] + t);
            assert forall|k: int| 1 <= k < g.len() implies g[k] == t[k - 1] by {}
        } else if is_px_at(s, i) {
            lemma_fix_from_shape(s, i + 2);
            let t = fix_from(s, i + 2);
            assert(g == seq!['p', 'x'] + t);
            assert forall|k: int| 2 <= k < g.len() implies g[k] == t[k - 2] by {}
        } else {
            lemma_fix_from_shape(s, i + 1);
            let t = fix_from(s, i + 1);
            assert(g == seq![s[i]] + t);
            assert forall|k: int| 1 <= k < g.len() implies g[k] == t[k - 1] by {}
            if g.len() > 1 && g[0] == cyr_er() && g[1] == cyr_ha() {
                assert(t[0] == cyr_ha());
                assert(s[i + 1] == cyr_ha());
            }
        }
    }
}

proof fn lemma_skip_spaces_same(a: Seq<char>, b: Seq<char>, j: int)
    requires
        0 <= j <= a.len(),
        a.len() == b.len(),
        forall|k: int| 0 <= k < a.len() ==> ((#[trigger] a[k] == ' ') <==> b[k] == ' '),
    ensures
        skip_spaces_back(a, j) == skip_spaces_back(b, j),
        0 <= skip_spaces_back(a, j) <= j,
    decreases j,
{
    if j > 0 {
        lemma_skip_spaces_same(a, b, j - 1);
    }
}

proof fn lemma_fix_from_unchanged(f: Seq<char>, k: int)
    requires
        0 <= k <= f.len(),
        forall|m: int| 0 <= m < f.len() ==> !is_times_at(f, m) && !is_px_at(f, m),
    ensures
        fix_from(f, k) == f.subrange(k, f.len() as int),
    decreases f.len() - k,
{
    if k < f.len() {
        lemma_fix_from_unchanged(f, k + 1);
        assert(fix_from(f, k) =~= f.subrange(k, f.len() as int));
    } else {
        assert(f.subrange(k, f.len() as int) =~= Seq::<char>::empty());
    }
}

/// Repairing a repaired text changes nothing.
pub proof fn lemma_fix_idempotent(s: Seq<char>)
    ensures
        fix_spec(fix_spec(s)) == fix_spec(s),
{
    let f = fix_spec(s);
    lemma_fix_from_shape(s, 0);
    assert forall|m: int| 0 <= m < f.len() implies !is_times_at(f, m) && !is_px_at(f, m) by {
        if is_times_at(f, m) {
            assert(f[m] == cyr_ha() || f[m] == '*');
            assert(spec_is_digit(f[m - 1]) == spec_is_digit(s[m - 1]));
            assert(spec_is_digit(f[m + 1]) == spec_is_digit(s[m + 1]));
            assert(is_times_at(s, m));
        }
        if is_px_at(f, m) {
            assert(f[m] == cyr_er());
            assert(f[m + 1] == cyr_ha());
            assert(s[m + 1] == cyr_ha());
            lemma_skip_spaces_same(f, s, m);
            let j = skip_spaces_back(f, m);
            assert(spec_is_digit(f[j - 1]) == spec_is_digit(s[j - 1]));
            assert(is_px_at(s, m));
        }
    }
    lemma_fix_from_unchanged(f, 0);
    assert(f.subrange(0, f.len() as int) =~= f);
}

} // verus!

verus! {

/// What the repair puts at a position where it starts a step.
spec fn repaired_at(s: Seq<char>, m: int) -> char {
    if is_times_at(s, m) {
        '\u{00D7}'
    } else if is_px_at(s, m) {
        'p'
    } else {
        s[m]
    }
}

proof fn lemma_fix_from_at(s: Seq<char>, i: int, m: int)
    requires
        0 <= i <= m < s.len(),
    ensures
        fix_from(s, i)[m - i] == repaired_at(s, m) || (m > i && is_px_at(s, m - 1) && fix_from(s, i)[m - i]
            == 'x'),
        m == i || s[m - 1] != cyr_er() ==> fix_from(s, i)[m - i] == repaired_at(s, m),
    decreases m - i,
{
    lemma_fix_from_len(s, i);
    let g = fix_from(s, i);
    if m == i {
    } else if is_times_at(s, i) {
        lemma_fix_from_len(s, i + 1);
        lemma_fix_from_at(s, i + 1, m);
        assert(g[m - i] == fix_from(s, i + 1)[m - i - 1]);
    } else if is_px_at(s, i) {
        if m > i + 1 {
            lemma_fix_from_len(s, i + 2);
            lemma_fix_from_at(s, i + 2, m);
            assert(g[m - i] == fix_from(s, i + 2)[m - i - 2]);
        }
    } else {
        lemma_fix_from_len(s, i + 1);
        lemma_fix_from_at(s, i + 1, m);
        assert(g[m - i] == fix_from(s, i + 1)[m - i - 1]);
    }
}

proof fn lemma_skip_spaces_back_run(s: Seq<char>, j: int)
    requires
        0 <= j <= s.len(),
    ensures
        0 <= skip_spaces_back(s, j) <= j,
        forall|q: int| skip_spaces_back(s, j) <= q < j ==> s[q] == ' ',
    decreases j,
{
    if j > 0 && s[j - 1] == ' ' {
        lemma_skip_spaces_back_run(s, j - 1);
    }
}

/// The repair writes a multiplication sign only where an asterisk or a
/// Cyrillic ha stood between two ASCII digits.
pub proof fn lemma_fix_times_only_between_digits(s: Seq<char>, k: int)
    requires
        0 <= k < s.len(),
    ensures
        fix_spec(s)[k] == '\u{00D7}' && s[k] != '\u{00D7}' ==> (s[k] == '*' || s[k] == '\u{0445}') && 0 < k && k
            + 1 < s.len() && spec_is_digit(s[k - 1]) && spec_is_digit(s[k + 1]),
{
    lemma_fix_from_at(s, 0, k);
}

/// An asterisk or a Cyrillic ha between two ASCII digits always becomes a
/// multiplication sign.
pub proof fn lemma_fix_times_between_digits(s: Seq<char>, k: int)
    requires
        0 < k,
        k + 1 < s.len(),
        s[k] == '*' || s[k] == '\u{0445}',
        spec_is_digit(s[k - 1]),
        spec_is_digit(s[k + 1]),
    ensures
        fix_spec(s)[k] == '\u{00D7}',
{
    lemma_fix_from_at(s, 0, k);
}

/// An asterisk without a digit on both sides is kept as it is.
pub proof fn lemma_fix_keeps_lone_asterisk(s: Seq<char>, k: int)
    requires
        0 <= k < s.len(),
        s[k] == '*',
        !(0 < k && k + 1 < s.len() && spec_is_digit(s[k - 1]) && spec_is_digit(s[k + 1])),
    ensures
        fix_spec(s)[k] == '*',
{
    lemma_fix_from_at(s, 0, k);
}

/// The repair changes only asterisks and the Cyrillic letters ha and er; a
/// Latin "p" is written only for an er that is followed by a ha and comes
/// after a digit with nothing but spaces between.
pub proof fn lemma_fix_changes_only_confusable(s: Seq<char>, k: int)
    requires
        0 <= k < s.len(),
    ensures
        fix_spec(s)[k] != s[k] ==> s[k] == '*' || s[k] == '\u{0445}' || s[k] == '\u{0440}',
        fix_spec(s)[k] == 'p' && s[k] != 'p' ==> s[k] == '\u{0440}' && k + 1 < s.len() && s[k + 1] == '\u{0445}'
            && exists|j: int| 0 <= j < k && spec_is_digit(#[trigger] s[j]) && forall|q: int| j < q < k ==> s[q] == ' ',
{
    lemma_fix_from_at(s, 0, k);
    if fix_spec(s)[k] == 'p' && s[k] != 'p' {
        if k > 0 && is_px_at(s, k - 1) && fix_spec(s)[k] == 'x' {
        } else {
            assert(is_px_at(s, k));
            lemma_skip_spaces_back_run(s, k);
            let j = skip_spaces_back(s, k);
            assert(spec_is_digit(s[j - 1]));
            assert(forall|q: int| j - 1 < q < k ==> s[q] == ' ');
        }
    }
}

} // verus!
