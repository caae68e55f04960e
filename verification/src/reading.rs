//! Choosing and merging the readings that several recognition passes return
//! for one screen region.
use vstd::prelude::*;
use crate::chars::{
    chars_of, string_of, is_alnum, is_ascii, is_alphabetic, is_whitespace, spec_is_alnum,
    spec_is_ascii, spec_is_digit, unicode_alphabetic, unicode_white_space,
};
use crate::text::{
    normalize_spec, normalize_chars, fix_spec, fix_ocr_chars, fold_char, lemma_fix_idempotent,
    lemma_fix_times_between_digits,
};

verus! {

// ---------------------------------------------------------------- trimming

/// The first position at or after `i` that holds no white space.
pub open spec fn lead_ws(s: Seq<char>, i: int) -> int
    decreases s.len() - i,
{
    if 0 <= i < s.len() && unicode_white_space(s[i]) {
        lead_ws(s, i + 1)
    } else {
        i
    }
}

/// The end of `s[..j]` once the white space at its end is dropped.
pub open spec fn trail_ws(s: Seq<char>, j: int) -> int
    decreases j,
{
    if 0 < j <= s.len() && unicode_white_space(s[j - 1]) {
        trail_ws(s, j - 1)
    } else {
        j
    }
}

/// `s` without leading and trailing white space (`str::trim`).
pub open spec fn trim_spec(s: Seq<char>) -> Seq<char> {
    let a = lead_ws(s, 0);
    let b = trail_ws(s, s.len() as int);
    if a < b {
        s.subrange(a, b)
    } else {
        Seq::empty()
    }
}

/// Drops leading and trailing white space.
pub fn trim_chars(s: &Vec<char>) -> (r: Vec<char>)
    ensures
        r@ == trim_spec(s@),
{
    let n = s.len();
    let mut a: usize = 0;
    while a < n && is_whitespace(s[a])
        invariant
            n == s@.len(),
            a <= n,
            lead_ws(s@, a as int) == lead_ws(s@, 0),
        decreases n - a,
    {
        a += 1;
    }
    let mut b: usize = n;
    while b > 0 && is_whitespace(s[b - 1])
        invariant
            n == s@.len(),
            b <= n,
            trail_ws(s@, b as int) == trail_ws(s@, n as int),
        decreases b,
    {
        b -= 1;
    }
    let mut r: Vec<char> = Vec::new();
    if a < b {
        let mut k: usize = a;
        while k < b
            invariant
                a <= k <= b <= n,
                n == s@.len(),
                r@ == s@.subrange(a as int, k as int),
            decreases b - k,
        {
            r.push(s[k]);
            k += 1;
        }
    }
    r
}

// ---------------------------------------------------------------- scoring

/// Number of ASCII letters and digits in `s`.
pub open spec fn count_alnum(s: Seq<char>) -> nat
    decreases s.len(),
{
    if s.len() == 0 {
        0
    } else {
        count_alnum(s.drop_last()) + if spec_is_alnum(s.last()) { 1nat } else { 0nat }
    }
}

/// Whether `c` is a letter outside ASCII (Cyrillic, CJK, ...).
pub open spec fn is_foreign_letter(c: char) -> bool {
    !spec_is_ascii(c) && unicode_alphabetic(c)
}

/// Number of letters outside ASCII in `s`.
pub open spec fn count_foreign(s: Seq<char>) -> nat
    decreases s.len(),
{
    if s.len() == 0 {
        0
    } else {
        count_foreign(s.drop_last()) + if is_foreign_letter(s.last()) { 1nat } else { 0nat }
    }
}

/// The rank key of a folded reading: whether more than a tenth of it are
/// letters outside ASCII, and how many ASCII letters and digits it holds.
pub open spec fn key_of(n: Seq<char>) -> (bool, nat) {
    (count_foreign(n) > n.len() / 10, count_alnum(n))
}

pub fn alnum_count(s: &Vec<char>) -> (r: usize)
    ensures
        r == count_alnum(s@),
{
    let mut c: usize = 0;
    for i in 0..s.len()
        invariant
            c == count_alnum(s@.take(i as int)),
            c <= i,
    {
        assert(s@.take(i + 1).drop_last() == s@.take(i as int));
        if is_alnum(s[i]) {
            c += 1;
        }
    }
    assert(s@.take(s.len() as int) == s@);
    c
}

pub fn foreign_count(s: &Vec<char>) -> (r: usize)
    ensures
        r == count_foreign(s@),
{
    let mut c: usize = 0;
    for i in 0..s.len()
        invariant
            c == count_foreign(s@.take(i as int)),
            c <= i,
    {
        assert(s@.take(i + 1).drop_last() == s@.take(i as int));
        if !is_ascii(s[i]) && is_alphabetic(s[i]) {
            c += 1;
        }
    }
    assert(s@.take(s.len() as int) == s@);
    c
}

/// The rank key of an already folded reading.
pub fn reading_key(n: &Vec<char>) -> (k: (bool, usize))
    ensures
        k.0 == key_of(n@).0,
        k.1 == key_of(n@).1,
{
    let f = foreign_count(n);
    let a = alnum_count(n);
    (f > n.len() / 10, a)
}

// ---------------------------------------------------------------- ordering

/// Key `a` ranks strictly ahead of key `b`: readings in a non-Latin script
/// first, then more ASCII letters and digits first.
pub open spec fn ranks_before(a: (bool, nat), b: (bool, nat)) -> bool {
    (a.0 && !b.0) || (a.0 == b.0 && a.1 > b.1)
}

/// Reading `i` comes before reading `j`: its key ranks ahead, or the keys
/// are equal and it came first (a stable order).
pub open spec fn comes_before(keys: Seq<(bool, nat)>, i: int, j: int) -> bool {
    ranks_before(keys[i], keys[j]) || (keys[i] == keys[j] && i < j)
}

/// `o` lists every index of `keys` once, in the order `comes_before`.
pub open spec fn is_rank_order(keys: Seq<(bool, nat)>, o: Seq<usize>) -> bool {
    &&& o.len() == keys.len()
    &&& forall|k: int| 0 <= k < o.len() ==> (#[trigger] o[k]) < keys.len()
    &&& forall|i: usize| i < keys.len() ==> #[trigger] o.contains(i)
    &&& forall|k: int, l: int|
        0 <= k < l < o.len() ==> comes_before(keys, #[trigger] o[k] as int, #[trigger] o[l] as int)
}

/// The order in which readings with the given keys are ranked.
pub open spec fn rank_order(keys: Seq<(bool, nat)>) -> Seq<usize> {
    choose|o: Seq<usize>| is_rank_order(keys, o)
}

proof fn lemma_sorted_unique(keys: Seq<(bool, nat)>, a: Seq<usize>, b: Seq<usize>)
    requires
        forall|x: usize| a.contains(x) <==> b.contains(x),
        forall|k: int, l: int|
            0 <= k < l < a.len() ==> comes_before(keys, #[trigger] a[k] as int, #[trigger] a[l] as int),
        forall|k: int, l: int|
            0 <= k < l < b.len() ==> comes_before(keys, #[trigger] b[k] as int, #[trigger] b[l] as int),
    ensures
        a == b,
    decreases a.len(),
{
    if a.len() == 0 {
        if b.len() > 0 {
            assert(b.contains(b[0]));
        }
        assert(a =~= b);
    } else {
        assert(a.contains(a[0]));
        assert(b.len() > 0);
        if a[0] != b[0] {
            assert(b.contains(b[0]));
            assert(a.contains(b[0]));
            let q = choose|q: int| 0 <= q < b.len() && b[q] == a[0];
            let p = choose|p: int| 0 <= p < a.len() && a[p] == b[0];
            assert(comes_before(keys, b[0] as int, b[q] as int));
            assert(comes_before(keys, a[0] as int, a[p] as int));
            assert(false);
        }
        let ta = a.drop_first();
        let tb = b.drop_first();
        assert forall|x: usize| ta.contains(x) <==> tb.contains(x) by {
            if ta.contains(x) {
                let k = choose|k: int| 0 <= k < ta.len() && ta[k] == x;
                assert(a[k + 1] == x);
                assert(comes_before(keys, a[0] as int, a[k + 1] as int));
                assert(a.contains(x));
                let m = choose|m: int| 0 <= m < b.len() && b[m] == x;
                if m == 0 {
                    assert(false);
                }
                assert(tb[m - 1] == x);
            }
            if tb.contains(x) {
                let k = choose|k: int| 0 <= k < tb.len() && tb[k] == x;
                assert(b[k + 1] == x);
                assert(comes_before(keys, b[0] as int, b[k + 1] as int));
                assert(b.contains(x));
                let m = choose|m: int| 0 <= m < a.len() && a[m] == x;
                if m == 0 {
                    assert(false);
                }
                assert(ta[m - 1] == x);
            }
        }
        assert forall|k: int, l: int| 0 <= k < l < ta.len() implies comes_before(
            keys,
            #[trigger] ta[k] as int,
            #[trigger] ta[l] as int,
        ) by {
            assert(ta[k] == a[k + 1] && ta[l] == a[l + 1]);
        }
        assert forall|k: int, l: int| 0 <= k < l < tb.len() implies comes_before(
            keys,
            #[trigger] tb[k] as int,
            #[trigger] tb[l] as int,
        ) by {
            assert(tb[k] == b[k + 1] && tb[l] == b[l + 1]);
        }
        lemma_sorted_unique(keys, ta, tb);
        assert(a =~= seq![a[0]] + ta);
        assert(b =~= seq![b[0]] + tb);
    }
}

/// There is only one rank order for given keys.
pub proof fn lemma_rank_order_unique(keys: Seq<(bool, nat)>, o1: Seq<usize>, o2: Seq<usize>)
    requires
        is_rank_order(keys, o1),
        is_rank_order(keys, o2),
    ensures
        o1 == o2,
{
    assert forall|x: usize| o1.contains(x) <==> o2.contains(x) by {
        if o1.contains(x) {
            let k = choose|k: int| 0 <= k < o1.len() && o1[k] == x;
            assert(o2.contains(x));
        }
        if o2.contains(x) {
            let k = choose|k: int| 0 <= k < o2.len() && o2[k] == x;
            assert(o1.contains(x));
        }
    }
    lemma_sorted_unique(keys, o1, o2);
}

/// The keys of exec readings, as spec values.
pub open spec fn keys_view(keys: Seq<(bool, usize)>) -> Seq<(bool, nat)> {
    keys.map_values(|k: (bool, usize)| (k.0, k.1 as nat))
}

/// Orders readings by their keys, stably (ties keep their input order).
pub fn rank_readings(keys: &Vec<(bool, usize)>) -> (o: Vec<usize>)
    ensures
        is_rank_order(keys_view(keys@), o@),
        o@ == rank_order(keys_view(keys@)),
{
    let ghost kv = keys_view(keys@);
    let n = keys.len();
    let mut order: Vec<usize> = Vec::new();
    for k in 0..n
        invariant
            n == keys@.len(),
            kv == keys_view(keys@),
            order@.len() == k,
            forall|q: int| 0 <= q < order@.len() ==> (#[trigger] order@[q]) < k,
            forall|i: usize| i < k ==> #[trigger] order@.contains(i),
            forall|q: int, l: int|
                0 <= q < l < order@.len() ==> comes_before(kv, #[trigger] order@[q] as int, #[trigger] order@[l] as int),
    {
        let kk = keys[k];
        let mut p: usize = 0;
        while p < order.len() && !((kk.0 && !keys[order[p]].0) || (kk.0 == keys[order[p]].0 && kk.1 > keys[order[p]].1))
            invariant
                n == keys@.len(),
                kv == keys_view(keys@),
                kk == keys@[k as int],
                k < n,
                order@.len() == k,
                p <= order@.len(),
                forall|q: int| 0 <= q < order@.len() ==> (#[trigger] order@[q]) < k,
                forall|q: int| 0 <= q < p ==> !ranks_before(kv[k as int], kv[#[trigger] order@[q] as int]),
            decreases order@.len() - p,
        {
            p += 1;
        }
        let ghost old_order = order@;
        assert(p < old_order.len() ==> ranks_before(kv[k as int], kv[old_order[p as int] as int]));
        order.insert(p, k);
        assert(order@ == old_order.insert(p as int, k));
        assert forall|q: int| 0 <= q < order@.len() implies (#[trigger] order@[q]) < k + 1 by {
            if q < p {
                assert(order@[q] == old_order[q]);
            } else if q > p {
                assert(order@[q] == old_order[q - 1]);
            }
        }
        assert forall|i: usize| i < k + 1 implies #[trigger] order@.contains(i) by {
            if i == k {
                assert(order@[p as int] == k);
            } else {
                assert(old_order.contains(i));
                let q = choose|q: int| 0 <= q < old_order.len() && old_order[q] == i;
                if q < p {
                    assert(order@[q] == i);
                } else {
                    assert(order@[q + 1] == i);
                }
            }
        }
        assert forall|q: int, l: int| 0 <= q < l < order@.len() implies comes_before(
            kv,
            #[trigger] order@[q] as int,
            #[trigger] order@[l] as int,
        ) by {
            if q < p && l < p {
                assert(order@[q] == old_order[q] && order@[l] == old_order[l]);
            } else if q < p && l == p {
                assert(order@[q] == old_order[q]);
                assert(!ranks_before(kv[k as int], kv[old_order[q] as int]));
            } else if q < p && l > p {
                assert(order@[q] == old_order[q] && order@[l] == old_order[l - 1]);
            } else if q == p {
                assert(order@[l] == old_order[l - 1]);
                if l - 1 > p {
                    assert(comes_before(kv, old_order[p as int] as int, old_order[l - 1] as int));
                }
            } else {
                assert(order@[q] == old_order[q - 1] && order@[l] == old_order[l - 1]);
            }
        }
    }
    proof {
        assert(is_rank_order(kv, order@));
        lemma_rank_order_unique(kv, order@, rank_order(kv));
    }
    order
}

} // verus!

verus! {

// ---------------------------------------------------------------- searching

/// The first position at or after `i` that holds `c`, or the length of `s`.
pub open spec fn first_from(s: Seq<char>, c: char, i: int) -> int
    decreases s.len() - i,
{
    if i >= s.len() {
        s.len() as int
    } else if s[i] == c {
        i
    } else {
        first_from(s, c, i + 1)
    }
}

/// The first position at or after `i` that holds an ASCII letter or digit.
pub open spec fn skip_non_alnum(s: Seq<char>, i: int) -> int
    decreases s.len() - i,
{
    if 0 <= i < s.len() && !spec_is_alnum(s[i]) {
        skip_non_alnum(s, i + 1)
    } else {
        i
    }
}

/// The end of the run of ASCII letters and digits that starts at `i`.
pub open spec fn alnum_end(s: Seq<char>, i: int) -> int
    decreases s.len() - i,
{
    if 0 <= i < s.len() && spec_is_alnum(s[i]) {
        alnum_end(s, i + 1)
    } else {
        i
    }
}

/// The start of the run of ASCII letters and digits that ends at `i`.
pub open spec fn alnum_start(s: Seq<char>, i: int) -> int
    decreases i,
{
    if 0 < i <= s.len() && spec_is_alnum(s[i - 1]) {
        alnum_start(s, i - 1)
    } else {
        i
    }
}

/// The first position at or after `i` where `w` occurs in `h` (`str::find`).
pub open spec fn find_from(h: Seq<char>, w: Seq<char>, i: int) -> Option<int>
    decreases h.len() + 1 - i,
{
    if i < 0 || i + w.len() > h.len() {
        None
    } else if h.subrange(i, i + w.len()) == w {
        Some(i)
    } else {
        find_from(h, w, i + 1)
    }
}

proof fn lemma_first_from_bounds(s: Seq<char>, c: char, i: int)
    requires
        0 <= i <= s.len(),
    ensures
        i <= first_from(s, c, i) <= s.len(),
        first_from(s, c, i) < s.len() ==> s[first_from(s, c, i)] == c,
        forall|k: int| i <= k < first_from(s, c, i) ==> s[k] != c,
    decreases s.len() - i,
{
    if i < s.len() && s[i] != c {
        lemma_first_from_bounds(s, c, i + 1);
    }
}

proof fn lemma_skip_bounds(s: Seq<char>, i: int)
    requires
        0 <= i <= s.len(),
    ensures
        i <= skip_non_alnum(s, i) <= s.len(),
        i <= alnum_end(s, i) <= s.len(),
        0 <= alnum_start(s, i) <= i,
    decreases s.len() - i,
{
    if i < s.len() {
        lemma_skip_bounds(s, i + 1);
    }
    lemma_start_bounds(s, i);
}

proof fn lemma_start_bounds(s: Seq<char>, i: int)
    requires
        0 <= i <= s.len(),
    ensures
        0 <= alnum_start(s, i) <= i,
    decreases i,
{
    if 0 < i && spec_is_alnum(s[i - 1]) {
        lemma_start_bounds(s, i - 1);
    }
}

proof fn lemma_find_bounds(h: Seq<char>, w: Seq<char>, i: int)
    requires
        0 <= i,
    ensures
        find_from(h, w, i) matches Some(p) ==> i <= p && p + w.len() <= h.len(),
    decreases h.len() + 1 - i,
{
    if i + w.len() <= h.len() && h.subrange(i, i + w.len()) != w {
        lemma_find_bounds(h, w, i + 1);
    }
}

// ---------------------------------------------------------------- merging

/// The word that follows the first `open` in a reading: the first run of
/// ASCII letters and digits after it.
pub open spec fn word_after(norm: Seq<char>, open: char) -> Seq<char> {
    let pos = first_from(norm, open, 0);
    let a = skip_non_alnum(norm, pos + 1);
    norm.subrange(a, alnum_end(norm, a))
}

/// Restores a lost opening bracket: where `best` holds `close` but not
/// `open`, and another reading `norm` holds both, the word that follows
/// `open` in `norm` is looked up in `best` and `open` is put before the
/// letters and digits that end at the place found.
pub open spec fn try_pair(best: Seq<char>, norm: Seq<char>, open: char, close: char) -> Option<Seq<char>> {
    if best.contains(close) && !best.contains(open) && norm.contains(open) && norm.contains(close) {
        let w = word_after(norm, open);
        if w.len() > 0 {
            match find_from(best, w, 0) {
                Some(wp) => Some(best.insert(alnum_start(best, wp), open)),
                None => None,
            }
        } else {
            None
        }
    } else {
        None
    }
}

/// One repair step of `best` against another reading: round brackets first,
/// then square ones, the first that applies.
pub open spec fn repair(best: Seq<char>, norm: Seq<char>) -> Seq<char> {
    match try_pair(best, norm, '(', ')') {
        Some(b) => b,
        None => match try_pair(best, norm, '[', ']') {
            Some(b) => b,
            None => best,
        },
    }
}

/// `best` repaired against the readings `rs[k..]` in turn.
pub open spec fn merge_from(best: Seq<char>, rs: Seq<Seq<char>>, k: int) -> Seq<char>
    decreases rs.len() - k,
{
    if k < 0 || k >= rs.len() {
        best
    } else {
        merge_from(repair(best, rs[k]), rs, k + 1)
    }
}

pub fn contains_char(s: &Vec<char>, c: char) -> (r: bool)
    ensures
        r == s@.contains(c),
{
    for i in 0..s.len()
        invariant
            forall|k: int| 0 <= k < i ==> s@[k] != c,
    {
        if s[i] == c {
            return true;
        }
    }
    false
}

/// Position of the first `c` in `s`, or its length.
pub fn first_index(s: &Vec<char>, c: char) -> (r: usize)
    ensures
        r == first_from(s@, c, 0),
{
    let mut i: usize = 0;
    while i < s.len() && s[i] != c
        invariant
            i <= s@.len(),
            first_from(s@, c, i as int) == first_from(s@, c, 0),
        decreases s@.len() - i,
    {
        i += 1;
    }
    i
}

pub fn skip_non_alnum_from(s: &Vec<char>, i0: usize) -> (r: usize)
    requires
        i0 <= s@.len(),
    ensures
        r == skip_non_alnum(s@, i0 as int),
{
    let mut i = i0;
    while i < s.len() && !is_alnum(s[i])
        invariant
            i0 <= i <= s@.len(),
            skip_non_alnum(s@, i as int) == skip_non_alnum(s@, i0 as int),
        decreases s@.len() - i,
    {
        i += 1;
    }
    i
}

pub fn alnum_end_from(s: &Vec<char>, i0: usize) -> (r: usize)
    requires
        i0 <= s@.len(),
    ensures
        r == alnum_end(s@, i0 as int),
{
    let mut i = i0;
    while i < s.len() && is_alnum(s[i])
        invariant
            i0 <= i <= s@.len(),
            alnum_end(s@, i as int) == alnum_end(s@, i0 as int),
        decreases s@.len() - i,
    {
        i += 1;
    }
    i
}

pub fn alnum_start_at(s: &Vec<char>, i0: usize) -> (r: usize)
    requires
        i0 <= s@.len(),
    ensures
        r == alnum_start(s@, i0 as int),
{
    let mut i = i0;
    while i > 0 && is_alnum(s[i - 1])
        invariant
            i <= i0 <= s@.len(),
            alnum_start(s@, i as int) == alnum_start(s@, i0 as int),
        decreases i,
    {
        i -= 1;
    }
    i
}

/// First occurrence of `w` in `h`.
pub fn find_chars(h: &Vec<char>, w: &Vec<char>) -> (r: Option<usize>)
    ensures
        match r {
            Some(p) => find_from(h@, w@, 0) == Some(p as int),
            None => find_from(h@, w@, 0) is None,
        },
{
    let hl = h.len();
    let wl = w.len();
    if wl > hl {
        return None;
    }
    let mut i: usize = 0;
    while i <= hl - wl
        invariant
            hl == h@.len(),
            wl == w@.len(),
            wl <= hl,
            i <= hl - wl + 1,
            find_from(h@, w@, i as int) == find_from(h@, w@, 0),
        decreases hl - i,
    {
        let mut j: usize = 0;
        let mut same = true;
        while j < wl
            invariant
                hl == h@.len(),
                wl == w@.len(),
                i + wl <= hl,
                j <= wl,
                same == (forall|k: int| 0 <= k < j ==> h@[i + k] == w@[k]),
            decreases wl - j,
        {
            if h[i + j] != w[j] {
                same = false;
            }
            j += 1;
        }
        if same {
            assert(h@.subrange(i as int, i + wl) =~= w@);
            return Some(i);
        } else {
            proof {
                let k = choose|k: int| 0 <= k < wl && h@[i + k] != w@[k];
                assert(h@.subrange(i as int, i + wl)[k] != w@[k]);
            }
        }
        i += 1;
    }
    None
}

/// The word that follows the first `open` of `norm`.
pub fn word_after_chars(norm: &Vec<char>, open: char) -> (r: Vec<char>)
    requires
        norm@.contains(open),
    ensures
        r@ == word_after(norm@, open),
{
    let pos = first_index(norm, open);
    proof {
        lemma_first_from_bounds(norm@, open, 0);
        if pos == norm@.len() {
            let k = choose|k: int| 0 <= k < norm@.len() && norm@[k] == open;
            assert(false);
        }
    }
    assert(pos < norm.len());
    let a = skip_non_alnum_from(norm, pos + 1);
    proof {
        lemma_skip_bounds(norm@, pos + 1);
        lemma_skip_bounds(norm@, a as int);
    }
    let b = alnum_end_from(norm, a);
    let mut r: Vec<char> = Vec::new();
    let mut k = a;
    while k < b
        invariant
            a <= k <= b <= norm@.len(),
            r@ == norm@.subrange(a as int, k as int),
        decreases b - k,
    {
        r.push(norm[k]);
        k += 1;
    }
    r
}

pub fn try_pair_chars(best: &Vec<char>, norm: &Vec<char>, open: char, close: char) -> (r: Option<Vec<char>>)
    ensures
        match r {
            Some(b) => try_pair(best@, norm@, open, close) == Some(b@),
            None => try_pair(best@, norm@, open, close) is None,
        },
{
    if contains_char(best, close) && !contains_char(best, open) && contains_char(norm, open)
        && contains_char(norm, close) {
        let w = word_after_chars(norm, open);
        if w.len() > 0 {
            match find_chars(best, &w) {
                Some(wp) => {
                    proof {
                        lemma_find_bounds(best@, w@, 0);
                    }
                    let st = alnum_start_at(best, wp);
                    proof {
                        lemma_start_bounds(best@, wp as int);
                    }
                    let mut b = best.clone();
                    assert(b@ =~= best@);
                    b.insert(st, open);
                    Some(b)
                },
                None => None,
            }
        } else {
            None
        }
    } else {
        None
    }
}

pub fn repair_chars(best: &Vec<char>, norm: &Vec<char>) -> (r: Vec<char>)
    ensures
        r@ == repair(best@, norm@),
{
    match try_pair_chars(best, norm, '(', ')') {
        Some(b) => b,
        None => match try_pair_chars(best, norm, '[', ']') {
            Some(b) => b,
            None => {
                let b = best.clone();
                assert(b@ =~= best@);
                b
            },
        },
    }
}

} // verus!

verus! {

// ---------------------------------------------------------------- readings

/// The texts of a list of strings.
pub open spec fn texts_view(rs: Seq<String>) -> Seq<Seq<char>> {
    rs.map_values(|s: String| s@)
}

/// The readings, trimmed, with the empty ones left out, in their order.
pub open spec fn collect_readings(rs: Seq<Seq<char>>) -> Seq<Seq<char>>
    decreases rs.len(),
{
    if rs.len() == 0 {
        Seq::empty()
    } else {
        let prev = collect_readings(rs.drop_last());
        let t = trim_spec(rs.last());
        if t.len() > 0 {
            prev.push(t)
        } else {
            prev
        }
    }
}

/// The text that the readings of one image merge into: none if every
/// reading is blank; otherwise the readings are folded, ranked by
/// `rank_order`, the first is repaired against each of the others in rank
/// order, and the outcome goes through `fix_spec`.
pub open spec fn merged_reading(rs: Seq<Seq<char>>) -> Option<Seq<char>> {
    let cands = collect_readings(rs);
    if cands.len() == 0 {
        None
    } else {
        let norms = cands.map_values(|t: Seq<char>| normalize_spec(t));
        let keys = norms.map_values(|n: Seq<char>| key_of(n));
        let sorted = rank_order(keys).map_values(|i: usize| norms[i as int]);
        Some(fix_spec(merge_from(sorted[0], sorted, 1)))
    }
}

/// Merges the readings that the recognisers returned for one image (see
/// `merged_reading`); `None` when all of them are blank.
pub fn merge_readings(readings: &Vec<String>) -> (r: Option<String>)
    ensures
        match r {
            Some(s) => merged_reading(texts_view(readings@)) == Some(s@),
            None => merged_reading(texts_view(readings@)) is None,
        },
        r matches Some(s) ==> is_clean(s@),
{
    let ghost rs = texts_view(readings@);
    let mut cands: Vec<Vec<char>> = Vec::new();
    for i in 0..readings.len()
        invariant
            rs == texts_view(readings@),
            cands@.len() == collect_readings(rs.take(i as int)).len(),
            forall|q: int| 0 <= q < cands@.len() ==> (#[trigger] cands@[q])@ == collect_readings(rs.take(i as int))[q],
            forall|q: int| 0 <= q < cands@.len() ==> (#[trigger] cands@[q])@.len() > 0
                && !unicode_white_space(cands@[q]@[0]) && !unicode_white_space(cands@[q]@.last()),
    {
        let v = chars_of(readings[i].as_str());
        let t = trim_chars(&v);
        proof {
            lemma_trim_ends(v@);
        }
        assert(rs.take(i + 1).drop_last() == rs.take(i as int));
        assert(rs.take(i + 1).last() == v@);
        if t.len() > 0 {
            cands.push(t);
        }
    }
    assert(rs.take(readings.len() as int) == rs);
    let ghost cs = collect_readings(rs);
    let n = cands.len();
    if n == 0 {
        return None;
    }
    let ghost nspec = cs.map_values(|t: Seq<char>| normalize_spec(t));
    let ghost kspec = nspec.map_values(|m: Seq<char>| key_of(m));
    let mut norms: Vec<Vec<char>> = Vec::new();
    let mut keys: Vec<(bool, usize)> = Vec::new();
    for j in 0..n
        invariant
            n == cands@.len(),
            n == cs.len(),
            forall|q: int| 0 <= q < n ==> (#[trigger] cands@[q])@ == cs[q],
            nspec == cs.map_values(|t: Seq<char>| normalize_spec(t)),
            kspec == nspec.map_values(|m: Seq<char>| key_of(m)),
            norms@.len() == j,
            keys@.len() == j,
            forall|q: int| 0 <= q < j ==> (#[trigger] norms@[q])@ == nspec[q],
            forall|q: int| 0 <= q < j ==> (#[trigger] keys@[q]).0 == kspec[q].0 && keys@[q].1 == kspec[q].1,
    {
        let m = normalize_chars(&cands[j]);
        let k = reading_key(&m);
        norms.push(m);
        keys.push(k);
    }
    assert(keys_view(keys@) =~= kspec);
    let order = rank_readings(&keys);
    let ghost sorted = rank_order(kspec).map_values(|i: usize| nspec[i as int]);
    assert(order@ == rank_order(kspec));
    assert(order@.len() == n);
    let first = order[0];
    let mut best = normalize_chars(&cands[first]);
    assert(best@ == sorted[0]);
    proof {
        lemma_normalize_clean(cands@[first as int]@);
        lemma_merge_from_clean(sorted[0], sorted, 1);
    }
    for k in 1..n
        invariant
            n == norms@.len(),
            n == order@.len(),
            order@ == rank_order(kspec),
            is_rank_order(kspec, order@),
            kspec.len() == n,
            sorted == rank_order(kspec).map_values(|i: usize| nspec[i as int]),
            forall|q: int| 0 <= q < n ==> (#[trigger] norms@[q])@ == nspec[q],
            merge_from(best@, sorted, k as int) == merge_from(sorted[0], sorted, 1),
    {
        let idx = order[k];
        assert(idx < n);
        assert(norms@[idx as int]@ == sorted[k as int]);
        best = repair_chars(&best, &norms[idx]);
    }
    proof {
        lemma_fix_clean(best@);
    }
    let fixed = fix_ocr_chars(&best);
    Some(string_of(&fixed))
}

// ---------------------------------------------------------------- choosing

/// Number of ASCII letters and digits in the folded form of a reading.
pub open spec fn reading_alnum(t: Seq<char>) -> nat {
    count_alnum(normalize_spec(t))
}

/// `i` is the first of the readings with the most ASCII letters and digits.
pub open spec fn is_best_index(rs: Seq<Seq<char>>, i: int) -> bool {
    &&& 0 <= i < rs.len()
    &&& forall|j: int| 0 <= j < rs.len() ==> reading_alnum(rs[j]) <= reading_alnum(rs[i])
    &&& forall|j: int| 0 <= j < i ==> reading_alnum(rs[j]) < reading_alnum(rs[i])
}

/// The reading that wins among the outcomes of several passes.
pub open spec fn best_reading(rs: Seq<Seq<char>>) -> Option<Seq<char>> {
    if rs.len() == 0 {
        None
    } else {
        Some(rs[choose|i: int| is_best_index(rs, i)])
    }
}

/// At most one index is the best.
pub proof fn lemma_best_index_unique(rs: Seq<Seq<char>>, i: int, j: int)
    requires
        is_best_index(rs, i),
        is_best_index(rs, j),
    ensures
        i == j,
{
    if i < j {
        assert(reading_alnum(rs[i]) < reading_alnum(rs[j]));
        assert(reading_alnum(rs[j]) <= reading_alnum(rs[i]));
    } else if j < i {
        assert(reading_alnum(rs[j]) < reading_alnum(rs[i]));
        assert(reading_alnum(rs[i]) <= reading_alnum(rs[j]));
    }
}

/// Picks, among the texts that the recognition passes returned, the first of
/// those with the most ASCII letters and digits once folded; `None` when
/// there are none.
pub fn choose_reading(results: &Vec<String>) -> (r: Option<String>)
    ensures
        match r {
            Some(s) => best_reading(texts_view(results@)) == Some(s@),
            None => best_reading(texts_view(results@)) is None,
        },
        r matches Some(s) ==> texts_view(results@).contains(s@),
{
    let ghost rs = texts_view(results@);
    let n = results.len();
    if n == 0 {
        return None;
    }
    let mut best: usize = 0;
    let first = chars_of(results[0].as_str());
    let mut best_alnum = alnum_count(&normalize_chars(&first));
    for k in 1..n
        invariant
            n == results@.len(),
            rs == texts_view(results@),
            best < k,
            best_alnum == reading_alnum(rs[best as int]),
            forall|j: int| 0 <= j < k ==> reading_alnum(rs[j]) <= best_alnum,
            forall|j: int| 0 <= j < best ==> reading_alnum(rs[j]) < best_alnum,
    {
        let v = chars_of(results[k].as_str());
        let a = alnum_count(&normalize_chars(&v));
        if a > best_alnum {
            best = k;
            best_alnum = a;
        }
    }
    proof {
        assert(is_best_index(rs, best as int));
        let c = choose|i: int| is_best_index(rs, i);
        lemma_best_index_unique(rs, best as int, c);
    }
    let r = results[best].clone();
    assert(rs[best as int] == r@);
    Some(r)
}

} // verus!

verus! {

// ---------------------------------------------------------------- regions

/// How a region's pixels are prepared for one recognition pass.
#[derive(Clone, Copy, PartialEq, Eq, Structural, Debug)]
pub enum Preprocess {
    /// The pixels as captured.
    AsIs,
    /// Grey, binarised at Otsu's level, enlarged.
    GrayOtsu,
    /// Grey, enlarged.
    Gray,
    /// Grey, binarised at the fixed middle level, enlarged.
    GrayFixed,
}

/// The passes run over a `w` by `h` region: the captured pixels first; then
/// one Otsu-binarised pass when the region is not small, or a grey pass and
/// a fixed-threshold pass when it is (see `scale_for`).
pub open spec fn plan_spec(w: u32, h: u32) -> Seq<Preprocess> {
    if crate::image::scale_for(w, h) < 8 {
        seq![Preprocess::AsIs, Preprocess::GrayOtsu]
    } else {
        seq![Preprocess::AsIs, Preprocess::Gray, Preprocess::GrayFixed]
    }
}

pub fn recognition_plan(w: u32, h: u32) -> (p: Vec<Preprocess>)
    ensures
        p@ == plan_spec(w, h),
{
    let scale = crate::image::pick_scale(w, h);
    let mut p: Vec<Preprocess> = Vec::new();
    p.push(Preprocess::AsIs);
    if scale < 8 {
        p.push(Preprocess::GrayOtsu);
    } else {
        p.push(Preprocess::Gray);
        p.push(Preprocess::GrayFixed);
    }
    assert(p@ =~= plan_spec(w, h));
    p
}

// ---------------------------------------------------------------- one bitmap

/// What the recognition engines read from one bitmap.
pub struct EngineReadings {
    /// The reading of the engine for the user's profile languages; `None`
    /// when that engine could not be made or failed on the bitmap.
    pub profile: Option<String>,
    /// The reading of the engine for each installed recognition language, in
    /// the order in which the languages are listed, `None` for an engine that
    /// could not be made or failed; `None` as a whole when the list of
    /// installed languages could not be read.
    pub languages: Option<Vec<Option<String>>>,
}

/// The texts of the readings that are there, in order.
pub open spec fn present_texts(rs: Seq<Option<String>>) -> Seq<Seq<char>>
    decreases rs.len(),
{
    if rs.len() == 0 {
        Seq::empty()
    } else {
        let prev = present_texts(rs.drop_last());
        match rs.last() {
            Some(t) => prev.push(t@),
            None => prev,
        }
    }
}

/// What recognising one bitmap gives: "OCR: install a language pack" when
/// the installed languages could not be listed, whatever the profile engine
/// read; otherwise the merge of the profile reading and the per-language
/// readings (see `merged_reading`), or "No text found" when all are blank.
pub open spec fn bitmap_result(e: EngineReadings) -> Result<Seq<char>, Seq<char>> {
    match e.languages {
        None => Err("OCR: install a language pack"@),
        Some(ls) => match merged_reading(present_texts(seq![e.profile] + ls@)) {
            Some(t) => Ok(t),
            None => Err("No text found"@),
        },
    }
}

/// Recognises the text of one bitmap from what its engines read (see
/// `bitmap_result`).
pub fn ocr_bitmap(e: &EngineReadings) -> (r: Result<String, String>)
    ensures
        match r {
            Ok(s) => bitmap_result(*e) == Ok::<Seq<char>, Seq<char>>(s@),
            Err(m) => bitmap_result(*e) == Err::<Seq<char>, Seq<char>>(m@),
        },
        r matches Ok(s) ==> is_clean(s@),
{
    match &e.languages {
        None => Err(String::from_str("OCR: install a language pack")),
        Some(ls) => {
            let ghost all = seq![e.profile] + ls@;
            let mut texts: Vec<String> = Vec::new();
            match &e.profile {
                Some(p) => texts.push(p.clone()),
                None => {},
            }
            assert(all.take(1).drop_last() =~= Seq::<Option<String>>::empty());
            assert(all.take(1).last() == e.profile);
            assert(present_texts(all.take(1).drop_last()) =~= Seq::<Seq<char>>::empty());
            assert(texts_view(texts@) =~= present_texts(all.take(1)));
            for i in 0..ls.len()
                invariant
                    all == seq![e.profile] + ls@,
                    texts_view(texts@) == present_texts(all.take(i + 1)),
            {
                assert(all.take(i + 2).drop_last() =~= all.take(i + 1));
                assert(all.take(i + 2).last() == ls@[i as int]);
                match &ls[i] {
                    Some(t) => {
                        texts.push(t.clone());
                        assert(texts_view(texts@) =~= present_texts(all.take(i + 1)).push(t@));
                    },
                    None => {},
                }
            }
            assert(all.take(ls.len() + 1) =~= all);
            match merge_readings(&texts) {
                Some(t) => Ok(t),
                None => Err(String::from_str("No text found")),
            }
        },
    }
}

// ---------------------------------------------------------------- one region

/// The text of every pass whose bitmap gave one, in pass order.
pub open spec fn pass_results(ps: Seq<EngineReadings>) -> Seq<Seq<char>>
    decreases ps.len(),
{
    if ps.len() == 0 {
        Seq::empty()
    } else {
        let prev = pass_results(ps.drop_last());
        match bitmap_result(ps.last()) {
            Ok(t) => prev.push(t),
            Err(_) => prev,
        }
    }
}

/// The text recognised in a region, given what the engines read from the
/// bitmap of each pass of `recognition_plan` that could be built: each
/// bitmap is recognised on its own (`ocr_bitmap`), the failed ones are left
/// out, and the best of the texts wins; "No text found" when no pass gave a
/// text.
pub fn recognize_region(passes: &Vec<EngineReadings>) -> (r: Result<String, String>)
    ensures
        match r {
            Ok(s) => best_reading(pass_results(passes@)) == Some(s@),
            Err(e) => best_reading(pass_results(passes@)) is None && e@ == "No text found"@,
        },
        r matches Ok(s) ==> is_clean(s@) && trim_spec(s@) == s@ && normalize_spec(s@) == s@,
{
    let ghost ps = passes@;
    let mut results: Vec<String> = Vec::new();
    for i in 0..passes.len()
        invariant
            ps == passes@,
            texts_view(results@) == pass_results(ps.take(i as int)),
            forall|j: int| 0 <= j < results@.len() ==> is_clean(#[trigger] results@[j]@),
    {
        assert(ps.take(i + 1).drop_last() == ps.take(i as int));
        assert(ps.take(i + 1).last() == passes@[i as int]);
        match ocr_bitmap(&passes[i]) {
            Ok(t) => {
                results.push(t);
                assert(texts_view(results@) =~= pass_results(ps.take(i as int)).push(t@));
            },
            Err(_) => {},
        }
    }
    assert(ps.take(passes.len() as int) == ps);
    match choose_reading(&results) {
        Some(t) => {
            proof {
                let j = choose|j: int| 0 <= j < texts_view(results@).len() && texts_view(results@)[j] == t@;
                assert(results@[j]@ == t@);
                lemma_clean_is_trimmed_and_folded(t@);
            }
            Ok(t)
        },
        None => Err(String::from_str("No text found")),
    }
}

/// What the overlay is told once recognition ends: success with the text
/// when it is not blank; otherwise failure with the error, or with
/// "No text found" for a blank text.
pub fn recognition_outcome(result: &Result<String, String>) -> (r: (bool, String))
    ensures
        match result {
            Ok(t) => if trim_spec(t@).len() > 0 {
                r.0 && r.1@ == t@
            } else {
                !r.0 && r.1@ == "No text found"@
            },
            Err(e) => !r.0 && r.1@ == e@,
        },
{
    match result {
        Ok(t) => {
            let v = chars_of(t.as_str());
            if trim_chars(&v).len() > 0 {
                (true, t.clone())
            } else {
                (false, String::from_str("No text found"))
            }
        },
        Err(e) => (false, e.clone()),
    }
}

} // verus!

verus! {

/// A single reading that is not blank comes out trimmed, folded and
/// repaired; a blank one gives nothing.
pub proof fn lemma_single_reading(t: Seq<char>)
    ensures
        merged_reading(seq![t]) == if trim_spec(t).len() > 0 {
            Some(fix_spec(normalize_spec(trim_spec(t))))
        } else {
            None
        },
{
    let rs = seq![t];
    assert(rs.drop_last() =~= Seq::<Seq<char>>::empty());
    assert(collect_readings(rs.drop_last()) =~= Seq::<Seq<char>>::empty());
    assert(rs.last() == t);
    let cands = collect_readings(rs);
    if trim_spec(t).len() > 0 {
        assert(cands =~= seq![trim_spec(t)]);
        let norms = cands.map_values(|x: Seq<char>| normalize_spec(x));
        let keys = norms.map_values(|n: Seq<char>| key_of(n));
        let o = seq![0usize];
        assert(o.contains(0usize)) by {
            assert(o[0] == 0usize);
        }
        assert(is_rank_order(keys, o));
        lemma_rank_order_unique(keys, o, rank_order(keys));
        let sorted = rank_order(keys).map_values(|i: usize| norms[i as int]);
        assert(sorted.len() == 1);
        assert(merge_from(sorted[0], sorted, 1) == sorted[0]);
    }
}

} // verus!

verus! {

// ---------------------------------------------------------------- clean texts

/// A recognised text as it leaves the merge: not empty, with no white space
/// at either end, and made only of characters that folding keeps.
pub open spec fn is_clean(s: Seq<char>) -> bool {
    &&& s.len() > 0
    &&& !unicode_white_space(s[0])
    &&& !unicode_white_space(s.last())
    &&& forall|k: int| 0 <= k < s.len() ==> fold_char(#[trigger] s[k]) == s[k]
}

/// A clean text is its own trimmed and its own folded form.
pub proof fn lemma_clean_is_trimmed_and_folded(s: Seq<char>)
    requires
        is_clean(s),
    ensures
        trim_spec(s) == s,
        normalize_spec(s) == s,
{
    assert(lead_ws(s, 0) == 0);
    assert(trail_ws(s, s.len() as int) == s.len());
    assert(s.subrange(0, s.len() as int) =~= s);
    assert(normalize_spec(s) =~= s);
}

/// Folding neither makes nor removes white space.
proof fn lemma_fold_white_space(c: char)
    ensures
        unicode_white_space(fold_char(c)) == unicode_white_space(c),
{
    let u = c as u32;
    if 0xFF10 <= u <= 0xFF19 {
        let v = ((u - 0xFF10 + 0x30) as u8);
        assert((v as char) as u32 == v as u32);
    } else if 0xFF21 <= u <= 0xFF3A {
        let v = ((u - 0xFF21 + 0x41) as u8);
        assert((v as char) as u32 == v as u32);
    } else if 0xFF41 <= u <= 0xFF5A {
        let v = ((u - 0xFF41 + 0x61) as u8);
        assert((v as char) as u32 == v as u32);
    }
}

proof fn lemma_lead_ws(s: Seq<char>, i: int)
    requires
        0 <= i <= s.len(),
    ensures
        i <= lead_ws(s, i) <= s.len(),
        lead_ws(s, i) < s.len() ==> !unicode_white_space(s[lead_ws(s, i)]),
    decreases s.len() - i,
{
    if i < s.len() && unicode_white_space(s[i]) {
        lemma_lead_ws(s, i + 1);
    }
}

proof fn lemma_trail_ws(s: Seq<char>, j: int)
    requires
        0 <= j <= s.len(),
    ensures
        0 <= trail_ws(s, j) <= j,
        trail_ws(s, j) > 0 ==> !unicode_white_space(s[trail_ws(s, j) - 1]),
    decreases j,
{
    if 0 < j && unicode_white_space(s[j - 1]) {
        lemma_trail_ws(s, j - 1);
    }
}

/// A trimmed text that is not empty has no white space at either end.
pub proof fn lemma_trim_ends(s: Seq<char>)
    ensures
        trim_spec(s).len() > 0 ==> !unicode_white_space(trim_spec(s)[0]) && !unicode_white_space(
            trim_spec(s).last(),
        ),
{
    lemma_lead_ws(s, 0);
    lemma_trail_ws(s, s.len() as int);
}

/// Folding a non-empty text with no white space at its ends makes it clean.
proof fn lemma_normalize_clean(c: Seq<char>)
    requires
        c.len() > 0,
        !unicode_white_space(c[0]),
        !unicode_white_space(c.last()),
    ensures
        is_clean(normalize_spec(c)),
{
    let n = normalize_spec(c);
    lemma_fold_white_space(c[0]);
    lemma_fold_white_space(c.last());
    assert forall|k: int| 0 <= k < n.len() implies fold_char(#[trigger] n[k]) == n[k] by {
        crate::text::lemma_fold_char_idempotent(c[k]);
    }
}

/// Restoring a bracket keeps a text clean.
proof fn lemma_repair_clean(best: Seq<char>, norm: Seq<char>)
    requires
        is_clean(best),
    ensures
        is_clean(repair(best, norm)),
{
    lemma_try_pair_clean(best, norm, '(', ')');
    lemma_try_pair_clean(best, norm, '[', ']');
}

proof fn lemma_try_pair_clean(best: Seq<char>, norm: Seq<char>, open: char, close: char)
    requires
        is_clean(best),
        open == '(' || open == '[',
    ensures
        try_pair(best, norm, open, close) matches Some(b) ==> is_clean(b),
{
    if try_pair(best, norm, open, close) is Some {
        let w = word_after(norm, open);
        let wp = find_from(best, w, 0)->0;
        lemma_find_bounds(best, w, 0);
        lemma_start_bounds(best, wp);
        let st = alnum_start(best, wp);
        let b = best.insert(st, open);
        assert(st < best.len());
        assert(b.last() == best.last());
        assert(b[0] == if st == 0 { open } else { best[0] });
        assert forall|k: int| 0 <= k < b.len() implies fold_char(#[trigger] b[k]) == b[k] by {
            if k < st {
                assert(b[k] == best[k]);
            } else if k > st {
                assert(b[k] == best[k - 1]);
            }
        }
    }
}

/// Repairing a clean text keeps it clean.
proof fn lemma_fix_clean(s: Seq<char>)
    requires
        is_clean(s),
    ensures
        is_clean(fix_spec(s)),
{
    crate::text::lemma_fix_from_shape(s, 0);
    let f = fix_spec(s);
    assert(f[0] == s[0] || f[0] == '\u{00D7}' || f[0] == 'p' || f[0] == 'x');
    assert(f[f.len() - 1] == s[s.len() - 1] || f[f.len() - 1] == '\u{00D7}' || f[f.len() - 1] == 'p' || f[f.len()
        - 1] == 'x');
    assert forall|k: int| 0 <= k < f.len() implies fold_char(#[trigger] f[k]) == f[k] by {
        assert(f[k] == s[k] || f[k] == '\u{00D7}' || f[k] == 'p' || f[k] == 'x');
    }
}

/// Merging readings with `merge_from` keeps a clean text clean.
proof fn lemma_merge_from_clean(best: Seq<char>, rs: Seq<Seq<char>>, k: int)
    requires
        is_clean(best),
    ensures
        is_clean(merge_from(best, rs, k)),
    decreases rs.len() - k,
{
    if 0 <= k < rs.len() {
        lemma_repair_clean(best, rs[k]);
        lemma_merge_from_clean(repair(best, rs[k]), rs, k + 1);
    }
}

} // verus!

verus! {

/// Whatever the number of readings, the merged text has been through the
/// OCR repair: repairing it again changes nothing, and no asterisk or
/// Cyrillic ha is left between two ASCII digits.
pub proof fn lemma_merged_is_repaired(rs: Seq<Seq<char>>)
    ensures
        merged_reading(rs) matches Some(t) ==> {
            &&& fix_spec(t) == t
            &&& forall|k: int|
                0 < k && k + 1 < t.len() && spec_is_digit(t[k - 1]) && spec_is_digit(t[k + 1]) ==> #[trigger] t[k]
                    != '*' && t[k] != '\u{0445}'
        },
{
    if let Some(t) = merged_reading(rs) {
        let cands = collect_readings(rs);
        let norms = cands.map_values(|x: Seq<char>| normalize_spec(x));
        let keys = norms.map_values(|n: Seq<char>| key_of(n));
        let sorted = rank_order(keys).map_values(|i: usize| norms[i as int]);
        let x = merge_from(sorted[0], sorted, 1);
        assert(t == fix_spec(x));
        lemma_fix_idempotent(x);
        assert forall|k: int|
            0 < k && k + 1 < t.len() && spec_is_digit(t[k - 1]) && spec_is_digit(t[k + 1]) implies #[trigger] t[k]
                != '*' && t[k] != '\u{0445}' by {
            if t[k] == '*' || t[k] == '\u{0445}' {
                lemma_fix_times_between_digits(t, k);
            }
        }
    }
}


/// A reading merged with an identical one gives the same text as that reading
/// alone: two engines that agree change nothing, and the repair is applied
/// all the same.
pub proof fn lemma_agreeing_readings(t: Seq<char>)
    ensures
        merged_reading(seq![t, t]) == merged_reading(seq![t]),
{
    lemma_single_reading(t);
    let rs = seq![t, t];
    let u = trim_spec(t);
    assert(rs.drop_last() == seq![t]);
    assert(rs.last() == t);
    let one = seq![t];
    assert(one.drop_last() =~= Seq::<Seq<char>>::empty());
    assert(collect_readings(one.drop_last()) =~= Seq::<Seq<char>>::empty());
    let cands = collect_readings(rs);
    if u.len() > 0 {
        assert(collect_readings(one) =~= seq![u]);
        assert(cands =~= seq![u, u]);
        let norms = cands.map_values(|x: Seq<char>| normalize_spec(x));
        let keys = norms.map_values(|n: Seq<char>| key_of(n));
        let n = normalize_spec(u);
        assert(norms[0] == n && norms[1] == n);
        assert(keys[0] == keys[1]);
        let o = seq![0usize, 1usize];
        assert(o.contains(0usize)) by {
            assert(o[0] == 0usize);
        }
        assert(o.contains(1usize)) by {
            assert(o[1] == 1usize);
        }
        assert(is_rank_order(keys, o));
        lemma_rank_order_unique(keys, o, rank_order(keys));
        let sorted = rank_order(keys).map_values(|i: usize| norms[i as int]);
        assert(sorted =~= seq![n, n]);
        assert(try_pair(n, n, '(', ')') is None);
        assert(try_pair(n, n, '[', ']') is None);
        assert(repair(n, n) == n);
        assert(merge_from(repair(n, n), sorted, 2) == repair(n, n));
        assert(merge_from(n, sorted, 1) == n);
    } else {
        assert(collect_readings(one) =~= Seq::<Seq<char>>::empty());
        assert(cands.len() == 0);
    }
}

} // verus!
