//! Bluetooth device addresses: parsing from text in colon or dash form and
//! printing in upper-case colon form.

use vstd::prelude::*;
use vstd::string::StringSliceAdditionalSpecFns;
use crate::text::{all_ascii, ascii_chars, hex_upper_digit, hex_upper_digit_exec, string_from_ascii};

verus! {

/// A six-byte Bluetooth device address, most significant byte first.
#[derive(Debug, Clone, Copy, Eq, Hash)]
pub struct Mac([u8; 6]);

/// The error returned for text that is not a MAC address.
#[derive(Debug, Clone, Copy, PartialEq, Eq, Structural)]
pub struct ParseMacError;

/// The value of an ASCII hex digit of either case.
pub open spec fn hex_value(d: u8) -> Option<u8> {
    if 48 <= d <= 57 {
        Some((d - 48) as u8)
    } else if 97 <= d <= 102 {
        Some((d - 97 + 10) as u8)
    } else if 65 <= d <= 70 {
        Some((d - 65 + 10) as u8)
    } else {
        None
    }
}

/// `:` or `-`.
pub open spec fn is_mac_separator(c: u8) -> bool {
    c == 58 || c == 45
}

/// Octet `i` of the text is two hex digits.
pub open spec fn octet_is_hex(b: Seq<u8>, i: int) -> bool {
    hex_value(b[3 * i]) is Some && hex_value(b[3 * i + 1]) is Some
}

/// The value of octet `i` of the text.
pub open spec fn octet_value(b: Seq<u8>, i: int) -> u8 {
    (hex_value(b[3 * i])->0 * 16 + hex_value(b[3 * i + 1])->0) as u8
}

/// The byte after octet `i` is a separator.
pub open spec fn separator_ok(b: Seq<u8>, i: int) -> bool {
    is_mac_separator(b[3 * i + 2])
}

/// The text is six hex pairs joined by `:` or `-` (mixed separators allowed).
pub open spec fn mac_text_valid(b: Seq<u8>) -> bool {
    &&& b.len() == 17
    &&& forall|i: int| 0 <= i < 6 ==> #[trigger] octet_is_hex(b, i)
    &&& forall|i: int| 0 <= i < 5 ==> #[trigger] separator_ok(b, i)
}

/// The six bytes that valid text stands for.
pub open spec fn mac_text_bytes(b: Seq<u8>) -> Seq<u8> {
    Seq::new(6, |i: int| octet_value(b, i))
}

/// The upper-case colon form of six bytes, as ASCII bytes.
pub open spec fn mac_display_bytes(m: Seq<u8>) -> Seq<u8> {
    Seq::new(17, |k: int|
        if k % 3 == 2 {
            58u8
        } else if k % 3 == 0 {
            hex_upper_digit(m[k / 3] / 16)
        } else {
            hex_upper_digit(m[k / 3] % 16)
        })
}

impl View for Mac {
    type V = Seq<u8>;

    closed spec fn view(&self) -> Seq<u8> {
        self.0@
    }
}

/// Parses one ASCII hex digit of either case.
pub fn parse_ascii_hex(digit: u8) -> (r: Result<u8, ParseMacError>)
    ensures
        match hex_value(digit) {
            Some(v) => r == Ok::<u8, ParseMacError>(v),
            None => r is Err,
        },
        r matches Ok(v) ==> v < 16,
{
    if 48 <= digit && digit <= 57 {
        Ok(digit - 48)
    } else if 97 <= digit && digit <= 102 {
        Ok(digit - 97 + 10)
    } else if 65 <= digit && digit <= 70 {
        Ok(digit - 65 + 10)
    } else {
        Err(ParseMacError)
    }
}

impl Mac {
    pub fn bytes(&self) -> (b: [u8; 6])
        ensures
            b@ == self@,
    {
        self.0
    }

    /// Parses `AA:BB:CC:DD:EE:FF`, `aa-bb-cc-dd-ee-ff` or any mix of the two
    /// separators and of the two cases.
    pub fn parse(s: &str) -> (r: Result<Mac, ParseMacError>)
        ensures
            r is Ok <==> mac_text_valid(s.spec_bytes()),
            r matches Ok(m) ==> m@ == mac_text_bytes(s.spec_bytes()),
    {
        let bytes = s.as_bytes();
        if bytes.len() != 17 {
            return Err(ParseMacError);
        }
        let ghost b = bytes@;
        let mut out = [0u8; 6];
        let mut i: usize = 0;
        while i < 6
            invariant
                b == bytes@,
                b == s.spec_bytes(),
                b.len() == 17,
                0 <= i <= 6,
                forall|j: int| 0 <= j < i ==> #[trigger] octet_is_hex(b, j),
                forall|j: int| 0 <= j < i && j < 5 ==> #[trigger] separator_ok(b, j),
                forall|j: int| 0 <= j < i ==> out@[j] == #[trigger] octet_value(b, j),
            decreases 6 - i,
        {
            let hi = match parse_ascii_hex(bytes[3 * i]) {
                Ok(v) => v,
                Err(e) => {
                    assert(!octet_is_hex(b, i as int));
                    return Err(e);
                },
            };
            let lo = match parse_ascii_hex(bytes[3 * i + 1]) {
                Ok(v) => v,
                Err(e) => {
                    assert(!octet_is_hex(b, i as int));
                    return Err(e);
                },
            };
            assert((hi << 4u8) | lo == hi * 16 + lo) by (bit_vector)
                requires
                    hi < 16,
                    lo < 16,
            ;
            out[i] = (hi << 4u8) | lo;
            assert(octet_is_hex(b, i as int));
            if i < 5 {
                let sep = bytes[3 * i + 2];
                if sep != 58 && sep != 45 {
                    assert(!separator_ok(b, i as int));
                    return Err(ParseMacError);
                }
                assert(separator_ok(b, i as int));
            }
            i = i + 1;
        }
        let m = Mac(out);
        assert(m@ =~= mac_text_bytes(b));
        Ok(m)
    }

    /// The upper-case colon form, such as `01:23:45:67:89:AB`.
    pub fn to_string(&self) -> (s: String)
        ensures
            s@ == ascii_chars(mac_display_bytes(self@)),
    {
        let mut out: Vec<u8> = Vec::new();
        let mut i: usize = 0;
        while i < 6
            invariant
                0 <= i <= 6,
                self@.len() == 6,
                out@.len() == if i == 0 { 0 } else { 3 * i - 1 },
                forall|k: int| 0 <= k < out@.len() ==> out@[k] == #[trigger] mac_display_bytes(self@)[k],
            decreases 6 - i,
        {
            if i > 0 {
                out.push(58);
            }
            let b = self.0[i];
            let hi = hex_upper_digit_exec(b / 16);
            let lo = hex_upper_digit_exec(b % 16);
            out.push(hi);
            out.push(lo);
            i = i + 1;
        }
        assert(out@ =~= mac_display_bytes(self@));
        assert forall|k: int| 0 <= k < out@.len() implies #[trigger] out@[k] < 128 by {
            assert(out@[k] == mac_display_bytes(self@)[k]);
        }
        string_from_ascii(out)
    }

    /// The bytes in the order that `bdaddr::Address` holds them: least
    /// significant byte first.
    pub fn address_order_bytes(&self) -> (b: [u8; 6])
        ensures
            forall|i: int| 0 <= i < 6 ==> #[trigger] b@[i] == self@[5 - i],
    {
        let b = self.0;
        [b[5], b[4], b[3], b[2], b[1], b[0]]
    }
}

#[verifier::external_type_specification]
#[verifier::external_body]
pub struct ExBdAddress(bdaddr::Address);

/// The six bytes that a `bdaddr::Address` holds, in its own order (least
/// significant byte first): what `<[u8; 6]>::from` reads back out of it.
pub uninterp spec fn bdaddr_bytes(a: bdaddr::Address) -> Seq<u8>;

/// `bdaddr::Address::from([u8; 6])`: wraps the six bytes as they are, so the
/// address holds exactly those bytes.
#[verifier::external_body]
fn bdaddr_from_bytes(b: [u8; 6]) -> (a: bdaddr::Address)
    ensures
        bdaddr_bytes(a) == b@,
{
    bdaddr::Address::from(b)
}

impl Mac {
    /// The address as `bdaddr` holds it, built from
    /// [`Mac::address_order_bytes`]: the same six bytes, least significant
    /// first.
    pub fn to_bdaddr(&self) -> (a: bdaddr::Address)
        ensures
            bdaddr_bytes(a).len() == 6,
            forall|i: int| 0 <= i < 6 ==> #[trigger] bdaddr_bytes(a)[i] == self@[5 - i],
    {
        bdaddr_from_bytes(self.address_order_bytes())
    }
}

impl PartialEq for Mac {
    fn eq(&self, other: &Mac) -> (r: bool) {
        let mut i: usize = 0;
        while i < 6
            invariant
                0 <= i <= 6,
                self@.len() == 6,
                other@.len() == 6,
                forall|j: int| 0 <= j < i ==> self@[j] == other@[j],
            decreases 6 - i,
        {
            if self.0[i] != other.0[i] {
                return false;
            }
            i = i + 1;
        }
        assert(self@ =~= other@);
        true
    }
}

impl vstd::std_specs::cmp::PartialEqSpecImpl for Mac {
    open spec fn obeys_eq_spec() -> bool {
        true
    }

    open spec fn eq_spec(&self, other: &Mac) -> bool {
        self@ == other@
    }
}

impl From<[u8; 6]> for Mac {
    /// The address with these six bytes, most significant first.
    fn from(v: [u8; 6]) -> (m: Mac)
        ensures
            m@ == v@,
    {
        Mac(v)
    }
}

impl Mac {
    /// Two addresses are the same value exactly when their bytes are.
    pub proof fn lemma_view_injective(a: Mac, b: Mac)
        ensures
            a@ == b@ <==> a == b,
    {
        if a@ == b@ {
            assert(a.0 =~= b.0) by {
                assert forall|i: int| 0 <= i < 6 implies a.0[i] == b.0[i] by {
                    assert(a.0@[i] == b.0@[i]);
                }
            }
        }
    }
}

/// The UTF-8 bytes of ASCII characters are those bytes.
pub proof fn lemma_utf8_of_ascii(b: Seq<u8>)
    requires
        all_ascii(b),
    ensures
        vstd::utf8::encode_utf8(ascii_chars(b)) == b,
{
    let c = ascii_chars(b);
    assert(vstd::utf8::is_ascii_chars(c)) by {
        assert forall|i: int| 0 <= i < c.len() implies '\0' <= #[trigger] c[i] <= '\u{7f}' by {
            assert(c[i] == b[i] as char);
        }
    }
    vstd::utf8::is_ascii_chars_encode_utf8(c);
    assert forall|i: int| 0 <= i < b.len() implies vstd::utf8::encode_utf8(c)[i] == b[i] by {
        assert(c[i] as u8 == vstd::utf8::encode_utf8(c)[i]);
        assert(c[i] == b[i] as char);
    }
    assert(vstd::utf8::encode_utf8(c) =~= b);
}

/// Printing an address and parsing the text gives the address back: the
/// printed form is valid MAC text, and it spells the same six bytes.
pub proof fn lemma_display_parse_round_trip(m: Mac)
    ensures
        all_ascii(mac_display_bytes(m@)),
        mac_text_valid(vstd::utf8::encode_utf8(ascii_chars(mac_display_bytes(m@)))),
        mac_text_bytes(vstd::utf8::encode_utf8(ascii_chars(mac_display_bytes(m@)))) == m@,
{
    let b = mac_display_bytes(m@);
    assert(m@.len() == 6);
    assert forall|k: int| 0 <= k < b.len() implies #[trigger] b[k] < 128 by {
        if k % 3 != 2 {
            let v = if k % 3 == 0 { m@[k / 3] / 16 } else { m@[k / 3] % 16 };
            assert(v < 16);
        }
    }
    lemma_utf8_of_ascii(b);
    assert forall|i: int| 0 <= i < 6 implies #[trigger] octet_is_hex(b, i) by {
        assert(b[3 * i] == hex_upper_digit(m@[i] / 16));
        assert(b[3 * i + 1] == hex_upper_digit(m@[i] % 16));
    }
    assert forall|i: int| 0 <= i < 5 implies #[trigger] separator_ok(b, i) by {
        assert(b[3 * i + 2] == 58u8);
    }
    assert forall|i: int| 0 <= i < 6 implies #[trigger] mac_text_bytes(b)[i] == m@[i] by {
        assert(b[3 * i] == hex_upper_digit(m@[i] / 16));
        assert(b[3 * i + 1] == hex_upper_digit(m@[i] % 16));
        assert(hex_value(b[3 * i]) == Some((m@[i] / 16) as u8));
        assert(hex_value(b[3 * i + 1]) == Some((m@[i] % 16) as u8));
        assert(octet_value(b, i) == m@[i]) by (nonlinear_arith)
            requires
                octet_value(b, i) == ((m@[i] / 16) * 16 + m@[i] % 16) as u8,
        ;
    }
    assert(mac_text_bytes(b) =~= m@);
}

impl vstd::std_specs::convert::FromSpecImpl<[u8; 6]> for Mac {
    open spec fn obeys_from_spec() -> bool {
        true
    }

    closed spec fn from_spec(v: [u8; 6]) -> Mac {
        Mac(v)
    }
}

/// The address made from six bytes holds those bytes.
pub proof fn lemma_from_bytes(v: [u8; 6])
    ensures
        <Mac as vstd::std_specs::convert::FromSpec<[u8; 6]>>::from_spec(v)@ == v@,
{
}

impl core::str::FromStr for Mac {
    type Err = ParseMacError;

    fn from_str(s: &str) -> (r: Result<Mac, ParseMacError>)
        ensures
            r is Ok <==> mac_text_valid(s.spec_bytes()),
            r matches Ok(m) ==> m@ == mac_text_bytes(s.spec_bytes()),
    {
        Mac::parse(s)
    }
}

impl ParseMacError {
    /// The error message.
    pub fn to_string(&self) -> (s: String)
        ensures
            s@ == "invalid MAC address: expected six hex pairs separated by ':' or '-'"@,
    {
        String::from_str("invalid MAC address: expected six hex pairs separated by ':' or '-'")
    }
}

} // verus!
