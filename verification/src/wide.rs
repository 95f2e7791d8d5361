use vstd::prelude::*;

verus! {

/// The characters that lossy UTF-16 decoding produces for the given code
/// units: every unit that is not valid text becomes a replacement character.
pub uninterp spec fn utf16_lossy(units: Seq<u16>) -> Seq<char>;

/// Relies on `String::from_utf16_lossy`: the result depends on the code units
/// alone; invalid sequences are replaced rather than failing, and an empty
/// input decodes to the empty string.
#[verifier::external_body]
fn decode_utf16_lossy(units: &Vec<u16>) -> (r: String)
    ensures
        r@ == utf16_lossy(units@),
        units@.len() == 0 ==> r@.len() == 0,
{
    String::from_utf16_lossy(units)
}

/// Index of the first zero code unit, or the length when none occurs.
pub open spec fn first_zero(s: Seq<u16>) -> int
    decreases s.len(),
{
    if s.len() == 0 {
        0
    } else if s[0] == 0 {
        0
    } else {
        1 + first_zero(s.drop_first())
    }
}

/// What decoding a fixed-width wide-character buffer yields: the lossy
/// decoding of the units preceding the first zero (or of the whole buffer).
pub open spec fn decoded_wide(s: Seq<u16>) -> Seq<char> {
    utf16_lossy(s.take(first_zero(s)))
}

/// A zero at position `k`, with none before it, makes `k` the first zero.
pub proof fn lemma_first_zero_at(s: Seq<u16>, k: int)
    requires
        0 <= k < s.len(),
        s[k] == 0,
        forall|j: int| 0 <= j < k ==> s[j] != 0,
    ensures
        first_zero(s) == k,
    decreases s.len(),
{
    if k > 0 {
        assert(s[0] != 0);
        let t = s.drop_first();
        assert(t[k - 1] == 0);
        assert(forall|j: int| 0 <= j < k - 1 ==> t[j] == s[j + 1] && t[j] != 0);
        lemma_first_zero_at(t, k - 1);
    }
}

/// A buffer without any zero unit is consumed whole.
pub proof fn lemma_first_zero_none(s: Seq<u16>)
    requires
        forall|j: int| 0 <= j < s.len() ==> s[j] != 0,
    ensures
        first_zero(s) == s.len(),
    decreases s.len(),
{
    if s.len() > 0 {
        let t = s.drop_first();
        assert(forall|j: int| 0 <= j < t.len() ==> t[j] == s[j + 1] && t[j] != 0);
        lemma_first_zero_none(t);
    }
}

/// Decoding a buffer whose first zero stands at `k` yields exactly the text
/// of the first `k` code units.
pub proof fn lemma_decode_stops_at_first_zero(s: Seq<u16>, k: int)
    requires
        0 <= k < s.len(),
        s[k] == 0,
        forall|j: int| 0 <= j < k ==> s[j] != 0,
    ensures
        decoded_wide(s) == utf16_lossy(s.take(k)),
{
    lemma_first_zero_at(s, k);
}

/// Decoding a buffer with no zero unit decodes the entire buffer.
pub proof fn lemma_decode_whole_buffer(s: Seq<u16>)
    requires
        forall|j: int| 0 <= j < s.len() ==> s[j] != 0,
    ensures
        decoded_wide(s) == utf16_lossy(s),
{
    lemma_first_zero_none(s);
    assert(s.take(s.len() as int) =~= s);
}

/// Converts a fixed-width, null-terminated wide-character buffer to text,
/// truncating at the first zero unit or at the end of the buffer.
pub fn wchar_to_string(s: &Vec<u16>) -> (r: String)
    ensures
        r@ == decoded_wide(s@),
{
    let mut prefix: Vec<u16> = Vec::new();
    let mut i: usize = 0;
    while i < s.len() && s[i] != 0
        invariant
            0 <= i <= s@.len(),
            prefix@ == s@.take(i as int),
            forall|j: int| 0 <= j < i ==> s@[j] != 0,
        decreases s@.len() - i,
    {
        prefix.push(s[i]);
        assert(prefix@ =~= s@.take(i + 1));
        i += 1;
    }
    proof {
        if i < s@.len() {
            lemma_first_zero_at(s@, i as int);
        } else {
            lemma_first_zero_none(s@);
        }
    }
    decode_utf16_lossy(&prefix)
}

} // verus!
