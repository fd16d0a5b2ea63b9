//! A set of byte tokens kept in a fixed-size, zero-padded region: the tokens,
//! each preceded by a `;`, followed by zero bytes up to the region's length.
use crate::instruction::Errors;
use vstd::prelude::*;

verus! {

/// The byte that precedes each token in the encoded text.
pub const SEPARATOR: u8 = 0x3b;

/// The text of a region: its bytes with the trailing zero padding removed.
pub open spec fn trim_zeros(b: Seq<u8>) -> Seq<u8>
    decreases b.len(),
{
    if b.len() > 0 && b.last() == 0 {
        trim_zeros(b.drop_last())
    } else {
        b
    }
}

pub open spec fn occurs_at(h: Seq<u8>, p: Seq<u8>, i: int) -> bool {
    0 <= i && i + p.len() <= h.len() && h.subrange(i, i + p.len()) == p
}

/// `p` is a substring of `h`.
pub open spec fn contains(h: Seq<u8>, p: Seq<u8>) -> bool {
    exists|i: int| occurs_at(h, p, i)
}

/// The first position at or after `from` where `p` occurs in `h`.
pub open spec fn first_occurrence(h: Seq<u8>, p: Seq<u8>, from: int) -> Option<int>
    decreases h.len() + 1 - from,
{
    if from < 0 || from + p.len() > h.len() {
        None
    } else if occurs_at(h, p, from) {
        Some(from)
    } else {
        first_occurrence(h, p, from + 1)
    }
}

/// `h` with its first occurrence of `p` cut out (unchanged where there is none).
pub open spec fn without_first(h: Seq<u8>, p: Seq<u8>) -> Seq<u8> {
    match first_occurrence(h, p, 0) {
        Some(i) => h.subrange(0, i) + h.subrange(i + p.len(), h.len() as int),
        None => h,
    }
}

/// `text` followed by zero bytes up to length `n`.
pub open spec fn padded(text: Seq<u8>, n: nat) -> Seq<u8> {
    text + Seq::new((n - text.len()) as nat, |i: int| 0u8)
}

/// The text with one more token appended.
pub open spec fn appended(text: Seq<u8>, token: Seq<u8>) -> Seq<u8> {
    text.push(SEPARATOR) + token
}

/// What adding `token` does to `region`: the outcome and the region after.
pub open spec fn spec_add(region: Seq<u8>, token: Seq<u8>) -> (Result<(), Errors>, Seq<u8>) {
    let d = trim_zeros(region);
    let t = trim_zeros(token);
    if contains(d, t) {
        (Err(Errors::EntryAlreadyExists), region)
    } else if appended(d, t).len() > region.len() {
        (Err(Errors::BufferOverflow), region)
    } else {
        (Ok(()), padded(appended(d, t), region.len()))
    }
}

/// What removing `token` from `region` does: the outcome and the region after.
pub open spec fn spec_remove(region: Seq<u8>, token: Seq<u8>) -> (Result<(), Errors>, Seq<u8>) {
    let d = trim_zeros(region);
    let t = trim_zeros(token);
    if !contains(d, t) {
        (Err(Errors::EntryDoesntExist), region)
    } else {
        (Ok(()), padded(without_first(d, seq![SEPARATOR] + t), region.len()))
    }
}

proof fn lemma_trim_zeros_len(b: Seq<u8>)
    ensures
        trim_zeros(b).len() <= b.len(),
        trim_zeros(b) == b.subrange(0, trim_zeros(b).len() as int),
        trim_zeros(b).len() == 0 || trim_zeros(b).last() != 0,
    decreases b.len(),
{
    if b.len() > 0 && b.last() == 0 {
        lemma_trim_zeros_len(b.drop_last());
        assert(b.drop_last().subrange(0, trim_zeros(b).len() as int) =~= b.subrange(
            0,
            trim_zeros(b).len() as int,
        ));
    } else {
        assert(b.subrange(0, b.len() as int) =~= b);
    }
}

proof fn lemma_first_occurrence(h: Seq<u8>, p: Seq<u8>, from: int)
    requires
        0 <= from,
    ensures
        first_occurrence(h, p, from) matches Some(i) ==> from <= i && occurs_at(h, p, i) && (
        forall|j: int| from <= j < i ==> !occurs_at(h, p, j)),
        first_occurrence(h, p, from) is None ==> forall|j: int| from <= j ==> !occurs_at(h, p, j),
    decreases h.len() + 1 - from,
{
    if from + p.len() <= h.len() && !occurs_at(h, p, from) {
        lemma_first_occurrence(h, p, from + 1);
    }
}

proof fn lemma_contains_first(h: Seq<u8>, p: Seq<u8>)
    ensures
        contains(h, p) <==> first_occurrence(h, p, 0) is Some,
{
    lemma_first_occurrence(h, p, 0);
    if let Some(i) = first_occurrence(h, p, 0) {
        assert(occurs_at(h, p, i));
    }
}

proof fn lemma_trim_padded(text: Seq<u8>, n: nat)
    requires
        text.len() <= n,
        text.len() == 0 || text.last() != 0,
    ensures
        trim_zeros(padded(text, n)) == text,
    decreases n - text.len(),
{
    if n > text.len() {
        assert(padded(text, n).drop_last() =~= padded(text, (n - 1) as nat));
        lemma_trim_padded(text, (n - 1) as nat);
    } else {
        assert(padded(text, n) =~= text);
    }
}

/// Adding a token that was just added fails with `EntryAlreadyExists`: after
/// a successful add, the set's text holds the token.
pub proof fn lemma_add_twice_rejected(region: Seq<u8>, token: Seq<u8>)
    requires
        spec_add(region, token).0 is Ok,
    ensures
        spec_add(spec_add(region, token).1, token).0 == Err::<(), Errors>(Errors::EntryAlreadyExists),
{
    let d = trim_zeros(region);
    let t = trim_zeros(token);
    lemma_trim_zeros_len(token);
    assert(t.len() > 0) by {
        if t.len() == 0 {
            assert(d.subrange(0, 0) =~= t);
            assert(occurs_at(d, t, 0));
        }
    }
    let text = appended(d, t);
    assert(text.last() != 0) by {
        assert(text.last() == t.last());
    }
    lemma_trim_padded(text, region.len());
    assert(text.subrange((d.len() + 1) as int, text.len() as int) =~= t);
    assert(occurs_at(text, t, (d.len() + 1) as int));
}

/// Containment is transitive: a token that occurs inside a text held in the
/// set is itself found in the set, so adding it fails with
/// `EntryAlreadyExists` even though it is not an entry of its own.
pub proof fn lemma_substring_rejected(region: Seq<u8>, token: Seq<u8>, held: Seq<u8>)
    requires
        contains(trim_zeros(region), held),
        contains(held, trim_zeros(token)),
    ensures
        spec_add(region, token).0 == Err::<(), Errors>(Errors::EntryAlreadyExists),
{
    let d = trim_zeros(region);
    let t = trim_zeros(token);
    let i = choose|i: int| occurs_at(d, held, i);
    let j = choose|j: int| occurs_at(held, t, j);
    assert(d.subrange(i + j, i + j + t.len()) =~= held.subrange(j, j + t.len()));
    assert(occurs_at(d, t, i + j));
}

/// Adding and removing keep the region's length: the new text always fits.
pub proof fn lemma_update_len(region: Seq<u8>, token: Seq<u8>, add: bool)
    ensures
        add ==> spec_add(region, token).1.len() == region.len(),
        !add ==> spec_remove(region, token).1.len() == region.len(),
{
    let d = trim_zeros(region);
    let p = seq![SEPARATOR] + trim_zeros(token);
    lemma_trim_zeros_len(region);
    lemma_first_occurrence(d, p, 0);
    assert(without_first(d, p).len() <= d.len());
}

/// The region's bytes with the trailing zeros removed.
fn trimmed(b: &[u8]) -> (r: Vec<u8>)
    ensures
        r@ == trim_zeros(b@),
{
    let mut n: usize = b.len();
    assert(b@.subrange(0, n as int) =~= b@);
    while n > 0 && b[n - 1] == 0
        invariant
            n <= b@.len(),
            trim_zeros(b@) == trim_zeros(b@.subrange(0, n as int)),
        decreases n,
    {
        assert(b@.subrange(0, n as int).drop_last() =~= b@.subrange(0, n - 1));
        n = n - 1;
    }
    assert(trim_zeros(b@.subrange(0, n as int)) == b@.subrange(0, n as int));
    let mut r: Vec<u8> = Vec::new();
    let mut i: usize = 0;
    while i < n
        invariant
            n <= b@.len(),
            i <= n,
            r@ == b@.subrange(0, i as int),
        decreases n - i,
    {
        r.push(b[i]);
        i = i + 1;
        assert(r@ =~= b@.subrange(0, i as int));
    }
    r
}

/// Whether `p` occurs in `h` at position `i`.
fn matches_at(h: &Vec<u8>, p: &Vec<u8>, i: usize) -> (r: bool)
    requires
        i + p@.len() <= h@.len(),
    ensures
        r == occurs_at(h@, p@, i as int),
{
    let hn: usize = h.len();
    let mut k: usize = 0;
    while k < p.len()
        invariant
            hn == h@.len(),
            i + p@.len() <= h@.len(),
            k <= p@.len(),
            forall|j: int| 0 <= j < k ==> h@[i + j] == p@[j],
        decreases p@.len() - k,
    {
        if h[i + k] != p[k] {
            assert(h@.subrange(i as int, i + p@.len())[k as int] != p@[k as int]);
            return false;
        }
        k = k + 1;
    }
    assert(h@.subrange(i as int, i + p@.len()) =~= p@);
    true
}

/// The first position at which `p` occurs in `h`.
fn find_first(h: &Vec<u8>, p: &Vec<u8>) -> (r: Option<usize>)
    ensures
        r matches Some(i) ==> first_occurrence(h@, p@, 0) == Some(i as int),
        r is None ==> first_occurrence(h@, p@, 0) is None,
{
    if p.len() > h.len() {
        return None;
    }
    let last: usize = h.len() - p.len();
    let mut i: usize = 0;
    loop
        invariant
            i <= last,
            last + p@.len() == h@.len(),
            first_occurrence(h@, p@, 0) == first_occurrence(h@, p@, i as int),
        decreases last - i,
    {
        if matches_at(h, p, i) {
            return Some(i);
        }
        if i == last {
            return None;
        }
        i = i + 1;
    }
}

/// Overwrites `array` with `text` followed by zeros.
fn write_padded(array: &mut [u8], text: &Vec<u8>)
    requires
        text@.len() <= old(array)@.len(),
    ensures
        final(array)@ == padded(text@, old(array)@.len()),
{
    let n: usize = array.len();
    let mut i: usize = 0;
    while i < n
        invariant
            n == array@.len(),
            text@.len() <= n,
            i <= n,
            forall|j: int| 0 <= j < i ==> array@[j] == padded(text@, n as nat)[j],
        decreases n - i,
    {
        if i < text.len() {
            array[i] = text[i];
        } else {
            array[i] = 0;
        }
        i = i + 1;
    }
    assert(array@ =~= padded(text@, n as nat));
}

/// Adds the token held in `s_raw` (zero padding removed) to the set kept in
/// `array`. Fails with `EntryAlreadyExists` where the text of the set already
/// holds the token as a substring, and with `BufferOverflow` where the new text
/// would not fit; the region is then left as it was.
pub fn str_buf_add(array: &mut [u8], s_raw: &[u8]) -> (r: Result<(), Errors>)
    ensures
        (r, final(array)@) == spec_add(old(array)@, s_raw@),
{
    let d = trimmed(array);
    let t = trimmed(s_raw);
    proof {
        lemma_contains_first(d@, t@);
        lemma_trim_zeros_len(old(array)@);
    }
    if find_first(&d, &t).is_some() {
        return Err(Errors::EntryAlreadyExists);
    }
    if t.len() >= array.len() || array.len() - t.len() - 1 < d.len() {
        return Err(Errors::BufferOverflow);
    }
    let mut text = d;
    text.push(SEPARATOR);
    let mut i: usize = 0;
    while i < t.len()
        invariant
            i <= t@.len(),
            text@ == trim_zeros(old(array)@).push(SEPARATOR) + t@.subrange(0, i as int),
        decreases t@.len() - i,
    {
        text.push(t[i]);
        i = i + 1;
        assert(text@ =~= trim_zeros(old(array)@).push(SEPARATOR) + t@.subrange(0, i as int));
    }
    assert(t@.subrange(0, t@.len() as int) =~= t@);
    write_padded(array, &text);
    Ok(())
}

/// Removes the token held in `s_raw` (zero padding removed) from the set kept
/// in `array`: the first occurrence of `;` followed by the token is cut out.
/// Fails with `EntryDoesntExist`, leaving the region as it was, where the text
/// of the set does not hold the token as a substring.
pub fn str_buf_rm(array: &mut [u8], s_raw: &[u8]) -> (r: Result<(), Errors>)
    ensures
        (r, final(array)@) == spec_remove(old(array)@, s_raw@),
{
    let d = trimmed(array);
    let t = trimmed(s_raw);
    proof {
        lemma_contains_first(d@, t@);
        lemma_trim_zeros_len(old(array)@);
    }
    if find_first(&d, &t).is_none() {
        return Err(Errors::EntryDoesntExist);
    }
    let mut pattern: Vec<u8> = Vec::new();
    pattern.push(SEPARATOR);
    let mut i: usize = 0;
    while i < t.len()
        invariant
            i <= t@.len(),
            pattern@ == seq![SEPARATOR] + t@.subrange(0, i as int),
        decreases t@.len() - i,
    {
        pattern.push(t[i]);
        i = i + 1;
        assert(pattern@ =~= seq![SEPARATOR] + t@.subrange(0, i as int));
    }
    assert(t@.subrange(0, t@.len() as int) =~= t@);
    let dn: usize = d.len();
    let text = match find_first(&d, &pattern) {
        None => d,
        Some(at) => {
            proof {
                lemma_first_occurrence(d@, pattern@, 0);
                assert(at + pattern@.len() <= dn);
            }
            let end: usize = at + pattern.len();
            let mut out: Vec<u8> = Vec::new();
            let mut j: usize = 0;
            while j < d.len()
                invariant
                    at + pattern@.len() == end,
                    end <= d@.len(),
                    j <= d@.len(),
                    j <= at ==> out@ == d@.subrange(0, j as int),
                    at < j < end ==> out@ == d@.subrange(0, at as int),
                    end <= j ==> out@ == d@.subrange(0, at as int) + d@.subrange(
                        end as int,
                        j as int,
                    ),
                decreases d@.len() - j,
            {
                if j < at || j >= end {
                    out.push(d[j]);
                }
                j = j + 1;
                assert(j <= at ==> out@ =~= d@.subrange(0, j as int));
                assert(end <= j ==> out@ =~= d@.subrange(0, at as int) + d@.subrange(
                    end as int,
                    j as int,
                ));
            }
            out
        },
    };
    assert(text@ == without_first(d@, seq![SEPARATOR] + t@));
    write_padded(array, &text);
    Ok(())
}

} // verus!
