//! Twenty-byte account and contract addresses, and their hex text.
use vstd::prelude::*;

verus! {

/// An account or contract address.
#[derive(Clone, Copy, Debug)]
pub struct Address {
    pub bytes: [u8; 20],
}

impl View for Address {
    type V = Seq<u8>;

    open spec fn view(&self) -> Seq<u8> {
        self.bytes@
    }
}

impl Address {
    /// Whether two addresses hold the same bytes.
    pub fn same_as(&self, other: &Address) -> (r: bool)
        ensures
            r == (self@ == other@),
    {
        let mut i: usize = 0;
        while i < 20
            invariant
                i <= 20,
                self@.len() == 20,
                other@.len() == 20,
                forall|j: int| 0 <= j < i ==> self@[j] == other@[j],
            decreases 20 - i,
        {
            if self.bytes[i] != other.bytes[i] {
                return false;
            }
            i = i + 1;
        }
        assert(self@ =~= other@);
        true
    }
}

pub open spec fn is_hex_digit(c: char) -> bool {
    ('0' <= c && c <= '9') || ('a' <= c && c <= 'f') || ('A' <= c && c <= 'F')
}

pub open spec fn hex_value(c: char) -> int {
    if '0' <= c && c <= '9' {
        c as int - '0' as int
    } else if 'a' <= c && c <= 'f' {
        c as int - 'a' as int + 10
    } else {
        c as int - 'A' as int + 10
    }
}

/// Whitespace that the hex reader steps over.
pub open spec fn is_hex_space(c: char) -> bool {
    c == ' ' || c == '\r' || c == '\n' || c == '\t'
}

/// The text after an optional lower-case `0x` prefix.
pub open spec fn hex_body(s: Seq<char>) -> Seq<char> {
    if s.len() >= 2 && s[0] == '0' && s[1] == 'x' {
        s.skip(2)
    } else {
        s
    }
}

/// The hex digits of a text, in order, whatever stands between them.
pub open spec fn hex_digits(s: Seq<char>) -> Seq<char>
    decreases s.len(),
{
    if s.len() == 0 {
        Seq::empty()
    } else if is_hex_digit(s.last()) {
        hex_digits(s.drop_last()).push(s.last())
    } else {
        hex_digits(s.drop_last())
    }
}

/// After an optional `0x`, only hex digits and whitespace, and forty digits.
pub open spec fn is_address_text(s: Seq<char>) -> bool {
    let h = hex_body(s);
    &&& forall|i: int| 0 <= i < h.len() ==> is_hex_digit(#[trigger] h[i]) || is_hex_space(h[i])
    &&& hex_digits(h).len() == 40
}

/// The bytes that the digit pairs of an address text spell.
pub open spec fn address_from_text(s: Seq<char>) -> Seq<u8> {
    let d = hex_digits(hex_body(s));
    Seq::new(20, |i: int| (16 * hex_value(d[2 * i]) + hex_value(d[2 * i + 1])) as u8)
}

/// Two characters equal once ASCII capitals are taken as small letters.
pub open spec fn same_ignoring_case(c: char, d: char) -> bool {
    c == d || ('A' <= c && c <= 'Z' && d as int == c as int + 32) || ('A' <= d && d <= 'Z'
        && c as int == d as int + 32)
}

/// Two texts of one length that agree character by character up to case.
pub open spec fn same_text_ignoring_case(s: Seq<char>, t: Seq<char>) -> bool {
    s.len() == t.len() && forall|i: int| 0 <= i < s.len() ==> same_ignoring_case(#[trigger] s[i], t[i])
}

pub open spec fn has_hex_prefix(s: Seq<char>) -> bool {
    s.len() >= 2 && s[0] == '0' && s[1] == 'x'
}

/// Relies on `FromStr` of ethers' `Address` (`H160` of `fixed-hash`, reading
/// through `rustc-hex`): it drops a leading `0x`, reads hex digits of either
/// case while stepping over spaces, tabs and line breaks, fails on any other
/// character, and succeeds on exactly forty digits.
#[verifier::external_body]
pub(crate) fn parse_address(s: &str) -> (r: Option<Address>)
    ensures
        r is Some <==> is_address_text(s@),
        r is Some ==> r->0@ == address_from_text(s@),
{
    <ethers::types::Address as std::str::FromStr>::from_str(s).ok().map(|a| Address { bytes: a.0 })
}

proof fn lemma_same_char_class(c: char, d: char)
    requires
        same_ignoring_case(c, d),
    ensures
        is_hex_digit(c) == is_hex_digit(d),
        is_hex_space(c) == is_hex_space(d),
        is_hex_digit(c) ==> hex_value(c) == hex_value(d),
{
}

proof fn lemma_digits_ignore_case(s: Seq<char>, t: Seq<char>)
    requires
        same_text_ignoring_case(s, t),
    ensures
        same_text_ignoring_case(hex_digits(s), hex_digits(t)),
    decreases s.len(),
{
    if s.len() > 0 {
        lemma_same_char_class(s.last(), t.last());
        lemma_digits_ignore_case(s.drop_last(), t.drop_last());
    }
}

/// Whether a text names an address, and which, does not depend on the case
/// of its letters: a checksummed (mixed-case) spelling and a lower-case one
/// name the same address. The `0x` prefix itself is read in lower case only,
/// so both texts carry it or neither does.
pub proof fn lemma_address_text_ignores_case(s: Seq<char>, t: Seq<char>)
    requires
        same_text_ignoring_case(s, t),
        has_hex_prefix(s) == has_hex_prefix(t),
    ensures
        is_address_text(s) == is_address_text(t),
        is_address_text(s) ==> address_from_text(s) == address_from_text(t),
{
    let hs = hex_body(s);
    let ht = hex_body(t);
    let k: int = if has_hex_prefix(s) { 2 } else { 0 };
    assert(forall|i: int| 0 <= i < hs.len() ==> #[trigger] hs[i] == s[i + k]);
    assert(forall|i: int| 0 <= i < ht.len() ==> #[trigger] ht[i] == t[i + k]);
    assert(same_text_ignoring_case(hs, ht)) by {
        assert forall|i: int| 0 <= i < hs.len() implies same_ignoring_case(#[trigger] hs[i], ht[i]) by {
            assert(same_ignoring_case(s[i + k], t[i + k]));
        }
    }
    if forall|i: int| 0 <= i < hs.len() ==> is_hex_digit(#[trigger] hs[i]) || is_hex_space(hs[i]) {
        assert forall|i: int| 0 <= i < ht.len() implies is_hex_digit(#[trigger] ht[i]) || is_hex_space(
            ht[i],
        ) by {
            lemma_same_char_class(hs[i], ht[i]);
            assert(is_hex_digit(hs[i]) || is_hex_space(hs[i]));
        }
    }
    if forall|i: int| 0 <= i < ht.len() ==> is_hex_digit(#[trigger] ht[i]) || is_hex_space(ht[i]) {
        assert forall|i: int| 0 <= i < hs.len() implies is_hex_digit(#[trigger] hs[i]) || is_hex_space(
            hs[i],
        ) by {
            lemma_same_char_class(hs[i], ht[i]);
            assert(is_hex_digit(ht[i]) || is_hex_space(ht[i]));
        }
    }
    lemma_digits_ignore_case(hs, ht);
    let ds = hex_digits(hs);
    let dt = hex_digits(ht);
    if is_address_text(s) {
        assert forall|i: int| 0 <= i < 40 implies hex_value(#[trigger] ds[i]) == hex_value(dt[i]) by {
            assert(same_ignoring_case(ds[i], dt[i]));
            lemma_same_char_class(ds[i], dt[i]);
            lemma_hex_digits_are_digits(hs, i);
        }
        assert forall|i: int| 0 <= i < 20 implies #[trigger] address_from_text(s)[i]
            == address_from_text(t)[i] by {
            assert(hex_value(ds[2 * i]) == hex_value(dt[2 * i]));
            assert(hex_value(ds[2 * i + 1]) == hex_value(dt[2 * i + 1]));
        }
        assert(address_from_text(s) =~= address_from_text(t));
    }
}

proof fn lemma_hex_digits_are_digits(s: Seq<char>, i: int)
    requires
        0 <= i < hex_digits(s).len(),
    ensures
        is_hex_digit(hex_digits(s)[i]),
    decreases s.len(),
{
    if s.len() > 0 {
        let d = hex_digits(s.drop_last());
        if i < d.len() {
            lemma_hex_digits_are_digits(s.drop_last(), i);
        }
    }
}

} // verus!
