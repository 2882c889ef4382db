//! The fixed, space-padded 64-byte string format used by every packet that
//! carries text. Encoding left-justifies the input bytes, pads the remainder
//! with spaces and silently truncates input longer than 64 bytes; decoding
//! trims trailing whitespace. Both directions are lossy by design for inputs
//! with trailing whitespace or more than 64 bytes.
use vstd::prelude::*;

verus! {

/// Whitespace bytes that decoding strips from the end of the content.
pub open spec fn is_wire_whitespace(b: u8) -> bool {
    b == 0x20 || b == 0x09 || b == 0x0a || b == 0x0c || b == 0x0d
}

/// The padded form of an arbitrary byte string: the first 64 bytes of `s`,
/// left-justified, with spaces filling the rest.
pub open spec fn spec_fixed_encode(s: Seq<u8>) -> Seq<u8> {
    Seq::new(64, |i: int| if i < s.len() { s[i] } else { 0x20u8 })
}

/// The content of a padded string: everything up to the trailing whitespace.
pub open spec fn spec_trim_trailing(s: Seq<u8>) -> Seq<u8>
    decreases s.len(),
{
    if s.len() == 0 {
        s
    } else if is_wire_whitespace(s[s.len() - 1]) {
        spec_trim_trailing(s.drop_last())
    } else {
        s
    }
}

/// A string in the fixed 64-byte wire format.
#[derive(Clone, Copy, Debug)]
pub struct MinecraftString {
    source: [u8; 64],
}

impl View for MinecraftString {
    type V = Seq<u8>;

    closed spec fn view(&self) -> Seq<u8> {
        self.source@
    }
}

impl PartialEq for MinecraftString {
    fn eq(&self, other: &Self) -> (r: bool)
        ensures
            r == (self@ == other@),
    {
        let mut i: usize = 0;
        while i < 64
            invariant
                i <= 64,
                forall|k: int| 0 <= k < i ==> self.source@[k] == other.source@[k],
            decreases 64 - i,
        {
            if self.source[i] != other.source[i] {
                return false;
            }
            i += 1;
        }
        proof {
            assert(self.source@ =~= other.source@);
        }
        true
    }
}

impl Eq for MinecraftString {
}

impl vstd::std_specs::cmp::PartialEqSpecImpl for MinecraftString {
    open spec fn obeys_eq_spec() -> bool {
        true
    }

    open spec fn eq_spec(&self, other: &Self) -> bool {
        self@ == other@
    }
}

impl MinecraftString {
    /// A string whose content is empty: 64 padding spaces.
    pub fn empty() -> (r: Self)
        ensures
            r@ =~= spec_fixed_encode(Seq::<u8>::empty()),
    {
        MinecraftString { source: [0x20; 64] }
    }

    /// Wraps 64 bytes taken verbatim from the wire.
    pub fn from_wire(source: [u8; 64]) -> (r: Self)
        ensures
            r@ == source@,
    {
        MinecraftString { source }
    }

    /// Encodes an arbitrary byte string into the padded format.
    pub fn encode_bytes(s: &[u8]) -> (r: Self)
        ensures
            r@ == spec_fixed_encode(s@),
    {
        let mut buffer: [u8; 64] = [0x20; 64];
        let n = if s.len() < 64 {
            s.len()
        } else {
            64
        };
        let mut i: usize = 0;
        while i < n
            invariant
                i <= n,
                n <= 64,
                n <= s@.len(),
                buffer@.len() == 64,
                forall|k: int| 0 <= k < i ==> buffer@[k] == s@[k],
                forall|k: int| i <= k < 64 ==> buffer@[k] == 0x20u8,
            decreases n - i,
        {
            buffer[i] = s[i];
            i += 1;
        }
        proof {
            assert(buffer@ =~= spec_fixed_encode(s@));
        }
        MinecraftString { source: buffer }
    }

    /// The wire bytes, exactly 64 of them.
    pub fn wire_bytes(&self) -> (r: &[u8; 64])
        ensures
            r@ == self@,
    {
        &self.source
    }

    /// The decoded content: the wire bytes with trailing whitespace removed.
    pub fn content(&self) -> (r: Vec<u8>)
        ensures
            r@ == spec_trim_trailing(self@),
    {
        let mut end: usize = 64;
        proof {
            assert(self.source@.take(64) =~= self.source@);
        }
        while end > 0 && is_wire_whitespace_exec(self.source[end - 1])
            invariant
                end <= 64,
                spec_trim_trailing(self.source@) == spec_trim_trailing(self.source@.take(end as int)),
            decreases end,
        {
            proof {
                assert(self.source@.take(end as int).drop_last() =~= self.source@.take(end - 1));
            }
            end -= 1;
        }
        let mut out: Vec<u8> = Vec::new();
        let mut i: usize = 0;
        while i < end
            invariant
                i <= end,
                end <= 64,
                out@ =~= self.source@.take(end as int).take(i as int),
            decreases end - i,
        {
            out.push(self.source[i]);
            proof {
                assert(out@ =~= self.source@.take(end as int).take(i + 1));
            }
            i += 1;
        }
        proof {
            assert(self.source@.take(end as int).take(end as int) =~= self.source@.take(end as int));
            if end > 0 {
                assert(!is_wire_whitespace(self.source@.take(end as int)[end - 1]));
            }
        }
        out
    }
}

/// Exec counterpart of `is_wire_whitespace`.
pub fn is_wire_whitespace_exec(b: u8) -> (r: bool)
    ensures
        r == is_wire_whitespace(b),
{
    b == 0x20 || b == 0x09 || b == 0x0a || b == 0x0c || b == 0x0d
}

/// Anything that can be turned into the fixed wire string format.
pub trait IntoMinecraftString: Sized {
    /// The byte string that encoding left-justifies and pads.
    spec fn mc_source(&self) -> Seq<u8>;

    /// Encodes `self` into the padded 64-byte format.
    fn to_mcstring(self) -> (r: MinecraftString)
        ensures
            r@ == spec_fixed_encode(self.mc_source()),
    ;
}

impl IntoMinecraftString for MinecraftString {
    open spec fn mc_source(&self) -> Seq<u8> {
        self@
    }

    fn to_mcstring(self) -> (r: MinecraftString)
        ensures
            r@ == spec_fixed_encode(self.mc_source()),
    {
        proof {
            assert(self@ =~= spec_fixed_encode(self@));
        }
        self
    }
}

impl IntoMinecraftString for String {
    open spec fn mc_source(&self) -> Seq<u8> {
        vstd::utf8::encode_utf8(self@)
    }

    fn to_mcstring(self) -> (r: MinecraftString)
        ensures
            r@ == spec_fixed_encode(self.mc_source()),
    {
        MinecraftString::encode_bytes(self.as_str().as_bytes())
    }
}

/// Encoding then decoding returns the input unchanged, for any byte string of
/// at most 64 bytes that does not end in whitespace. Inputs that end in
/// whitespace, or run past 64 bytes, lose that tail: an accepted lossiness of
/// the format, not covered by this law.
pub proof fn lemma_fixed_string_round_trip(s: Seq<u8>)
    requires
        s.len() <= 64,
        s.len() > 0 ==> !is_wire_whitespace(s[s.len() - 1]),
    ensures
        spec_trim_trailing(spec_fixed_encode(s)) == s,
{
    let k = 64 - s.len();
    assert(spec_fixed_encode(s) =~= s + Seq::new(k as nat, |i: int| 0x20u8));
    lemma_fixed_string_round_trip_padded(s, k as int);
}

/// Helper for the round-trip law: trimming removes exactly the `k` spaces
/// that padding appended.
proof fn lemma_fixed_string_round_trip_padded(s: Seq<u8>, k: int)
    requires
        0 <= k,
        s.len() + k <= 64,
        s.len() > 0 ==> !is_wire_whitespace(s[s.len() - 1]),
    ensures
        spec_trim_trailing(s + Seq::new(k as nat, |i: int| 0x20u8)) == s,
    decreases k,
{
    let padded = s + Seq::new(k as nat, |i: int| 0x20u8);
    if k == 0 {
        assert(padded =~= s);
        if s.len() > 0 {
            assert(!is_wire_whitespace(padded[padded.len() - 1]));
        }
    } else {
        let shorter = s + Seq::new((k - 1) as nat, |i: int| 0x20u8);
        assert(is_wire_whitespace(padded[padded.len() - 1]));
        assert(padded.drop_last() =~= shorter);
        lemma_fixed_string_round_trip_padded(s, k - 1);
    }
}

/// Every fixed string views as exactly its 64 wire bytes.
pub broadcast proof fn lemma_mcstring_len(s: MinecraftString)
    ensures
        (#[trigger] s@).len() == 64,
{
}

/// Two fixed strings with the same wire bytes are the same value.
pub proof fn lemma_mcstring_view_injective(a: MinecraftString, b: MinecraftString)
    requires
        a@ == b@,
    ensures
        a == b,
{
    assert(a.source@ =~= b.source@);
    assert(a.source =~= b.source);
}

/// Truncation: every byte string, however long, encodes to exactly 64 bytes
/// holding only the first 64 bytes of the input.
pub proof fn lemma_fixed_string_truncation(s: Seq<u8>)
    requires
        s.len() >= 64,
    ensures
        spec_fixed_encode(s).len() == 64,
        spec_fixed_encode(s) == s.take(64),
{
    assert(spec_fixed_encode(s) =~= s.take(64));
}

} // verus!
