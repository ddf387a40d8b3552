//! Token-transfer packet data: the validated domain form and its wire form.
use vstd::prelude::*;
use vstd::string::*;

verus! {

/// An ASCII decimal digit.
pub open spec fn is_digit(c: char) -> bool {
    '0' <= c && c <= '9'
}

/// An ASCII letter.
pub open spec fn is_letter(c: char) -> bool {
    ('a' <= c && c <= 'z') || ('A' <= c && c <= 'Z')
}

/// A character allowed after the first one of a denomination.
pub open spec fn is_denom_char(c: char) -> bool {
    is_letter(c) || is_digit(c) || c == '/' || c == ':' || c == '.' || c == '_' || c == '-'
}

/// Longest denomination accepted.
pub const MAX_DENOM_LEN: usize = 128;

/// The denomination grammar: one to 128 characters, a letter first, then
/// letters, digits and `/ : . _ -`.
pub open spec fn valid_denom(s: Seq<char>) -> bool {
    &&& 0 < s.len() <= MAX_DENOM_LEN
    &&& is_letter(s[0])
    &&& forall|i: int| 0 < i < s.len() ==> is_denom_char(#[trigger] s[i])
}

/// The amount grammar: digits, with at most one `.` that has a digit on
/// each side. No sign, no exponent, no spaces.
pub open spec fn valid_decimal(s: Seq<char>) -> bool {
    &&& s.len() > 0
    &&& is_digit(s[0])
    &&& is_digit(s[s.len() - 1])
    &&& forall|i: int| 0 <= i < s.len() ==> is_digit(#[trigger] s[i]) || s[i] == '.'
    &&& forall|i: int, j: int| 0 <= i < j < s.len() && #[trigger] s[i] == '.' ==> #[trigger] s[j] != '.'
}

/// Why a wire packet was refused. Each variant carries the offending string.
#[derive(Debug, Clone, PartialEq, Eq)]
pub enum CodecError {
    InvalidDenom(String),
    InvalidAmount(String),
}

/// A token denomination that satisfies [`valid_denom`].
#[derive(Debug, Clone, PartialEq, Eq)]
pub struct Denom {
    name: String,
}

impl View for Denom {
    type V = Seq<char>;

    closed spec fn view(&self) -> Seq<char> {
        self.name@
    }
}

impl Denom {
    pub open spec fn wf(&self) -> bool {
        valid_denom(self@)
    }

    /// Parses a denomination; fails with `InvalidDenom` outside the grammar.
    pub fn parse(s: &str) -> (r: Result<Denom, CodecError>)
        ensures
            match r {
                Ok(d) => valid_denom(s@) && d@ == s@ && d.wf(),
                Err(CodecError::InvalidDenom(d)) => !valid_denom(s@) && d@ == s@,
                Err(CodecError::InvalidAmount(_)) => false,
            },
    {
        let n = s.unicode_len();
        if n == 0 || n > MAX_DENOM_LEN {
            return Err(CodecError::InvalidDenom(s.to_string()));
        }
        let first = s.get_char(0);
        if !(('a' <= first && first <= 'z') || ('A' <= first && first <= 'Z')) {
            return Err(CodecError::InvalidDenom(s.to_string()));
        }
        let mut i: usize = 1;
        while i < n
            invariant
                n == s@.len(),
                1 <= i <= n,
                forall|k: int| 0 < k < i ==> is_denom_char(#[trigger] s@[k]),
            decreases n - i,
        {
            let c = s.get_char(i);
            if !(('a' <= c && c <= 'z') || ('A' <= c && c <= 'Z') || ('0' <= c && c <= '9')
                || c == '/' || c == ':' || c == '.' || c == '_' || c == '-') {
                return Err(CodecError::InvalidDenom(s.to_string()));
            }
            i = i + 1;
        }
        Ok(Denom { name: s.to_string() })
    }

    /// The denomination as it is written on the wire.
    pub fn as_str(&self) -> (r: &str)
        ensures
            r@ == self@,
    {
        self.name.as_str()
    }
}

/// A non-negative decimal amount that satisfies [`valid_decimal`].
///
/// The amount keeps the exact digits it was parsed from: `"1.0"` and `"1"`
/// are distinct amounts, and rendering gives back the parsed text unchanged.
#[derive(Debug, Clone, PartialEq, Eq)]
pub struct Decimal {
    digits: String,
}

impl View for Decimal {
    type V = Seq<char>;

    closed spec fn view(&self) -> Seq<char> {
        self.digits@
    }
}

impl Decimal {
    pub open spec fn wf(&self) -> bool {
        valid_decimal(self@)
    }

    /// Parses an amount; fails with `InvalidAmount` outside the grammar.
    pub fn parse(s: &str) -> (r: Result<Decimal, CodecError>)
        ensures
            match r {
                Ok(d) => valid_decimal(s@) && d@ == s@ && d.wf(),
                Err(CodecError::InvalidAmount(a)) => !valid_decimal(s@) && a@ == s@,
                Err(CodecError::InvalidDenom(_)) => false,
            },
    {
        let n = s.unicode_len();
        if n == 0 {
            return Err(CodecError::InvalidAmount(s.to_string()));
        }
        let mut seen_dot = false;
        let mut dot: usize = 0;
        let mut i: usize = 0;
        while i < n
            invariant
                n == s@.len(),
                0 <= i <= n,
                forall|k: int| 0 <= k < i ==> is_digit(#[trigger] s@[k]) || s@[k] == '.',
                forall|a: int, b: int|
                    0 <= a < b < i && #[trigger] s@[a] == '.' ==> #[trigger] s@[b] != '.',
                seen_dot ==> dot < i && s@[dot as int] == '.',
                !seen_dot ==> forall|k: int| 0 <= k < i ==> #[trigger] s@[k] != '.',
            decreases n - i,
        {
            let c = s.get_char(i);
            if c == '.' {
                if seen_dot {
                    assert(s@[dot as int] == '.' && s@[i as int] == '.');
                    return Err(CodecError::InvalidAmount(s.to_string()));
                }
                seen_dot = true;
                dot = i;
            } else if !('0' <= c && c <= '9') {
                assert(!(is_digit(s@[i as int]) || s@[i as int] == '.'));
                return Err(CodecError::InvalidAmount(s.to_string()));
            }
            i = i + 1;
        }
        let first = s.get_char(0);
        let last = s.get_char(n - 1);
        if !('0' <= first && first <= '9') || !('0' <= last && last <= '9') {
            return Err(CodecError::InvalidAmount(s.to_string()));
        }
        Ok(Decimal { digits: s.to_string() })
    }

    /// The amount as it is written on the wire.
    pub fn as_str(&self) -> (r: &str)
        ensures
            r@ == self@,
    {
        self.digits.as_str()
    }
}

/// An address on some chain, kept exactly as written; it is not validated.
#[derive(Debug, Clone, PartialEq, Eq)]
pub struct Signer {
    address: String,
}

impl View for Signer {
    type V = Seq<char>;

    closed spec fn view(&self) -> Seq<char> {
        self.address@
    }
}

impl Signer {
    /// Wraps any string, the empty one included.
    pub fn new(address: String) -> (r: Signer)
        ensures
            r@ == address@,
    {
        Signer { address }
    }

    pub fn as_str(&self) -> (r: &str)
        ensures
            r@ == self@,
    {
        self.address.as_str()
    }
}

/// An amount of one denomination.
#[derive(Debug, Clone, PartialEq, Eq)]
pub struct Coin {
    pub denom: Denom,
    pub amount: Decimal,
}

/// The four strings of a packet, as a model shared by both forms.
pub ghost struct PacketFields {
    pub denom: Seq<char>,
    pub amount: Seq<char>,
    pub sender: Seq<char>,
    pub receiver: Seq<char>,
}

/// Whether a wire packet decodes: both the denomination and the amount
/// follow their grammars; the addresses are taken as they are.
pub open spec fn decodes(f: PacketFields) -> bool {
    valid_denom(f.denom) && valid_decimal(f.amount)
}

/// The validated packet of a fungible token transfer.
#[derive(Debug, Clone, PartialEq, Eq)]
pub struct PacketData {
    pub token: Coin,
    pub sender: Signer,
    pub receiver: Signer,
}

impl View for PacketData {
    type V = PacketFields;

    open spec fn view(&self) -> PacketFields {
        PacketFields {
            denom: self.token.denom@,
            amount: self.token.amount@,
            sender: self.sender@,
            receiver: self.receiver@,
        }
    }
}

/// The wire form of a token transfer packet: four plain strings.
#[derive(Debug, Clone, PartialEq, Eq, Default)]
pub struct RawPacketData {
    pub denom: String,
    pub amount: String,
    pub sender: String,
    pub receiver: String,
}

impl View for RawPacketData {
    type V = PacketFields;

    open spec fn view(&self) -> PacketFields {
        PacketFields {
            denom: self.denom@,
            amount: self.amount@,
            sender: self.sender@,
            receiver: self.receiver@,
        }
    }
}

impl PacketData {
    /// Both the denomination and the amount satisfy their grammars.
    pub open spec fn wf(&self) -> bool {
        self.token.denom.wf() && self.token.amount.wf()
    }

    /// Decodes a wire packet. The denomination is checked first, then the
    /// amount; the addresses are wrapped unchanged.
    pub fn try_from(raw: RawPacketData) -> (r: Result<PacketData, CodecError>)
        ensures
            match r {
                Ok(p) => decodes(raw@) && p@ == raw@ && p.wf(),
                Err(CodecError::InvalidDenom(d)) => !valid_denom(raw@.denom) && d@ == raw@.denom,
                Err(CodecError::InvalidAmount(a)) => valid_denom(raw@.denom)
                    && !valid_decimal(raw@.amount) && a@ == raw@.amount,
            },
    {
        let denom = match Denom::parse(raw.denom.as_str()) {
            Ok(d) => d,
            Err(e) => return Err(e),
        };
        let amount = match Decimal::parse(raw.amount.as_str()) {
            Ok(a) => a,
            Err(e) => return Err(e),
        };
        Ok(PacketData {
            token: Coin { denom, amount },
            sender: Signer::new(raw.sender),
            receiver: Signer::new(raw.receiver),
        })
    }
}

impl RawPacketData {
    /// Encodes a packet; this never fails.
    pub fn from(pkt_data: PacketData) -> (r: RawPacketData)
        ensures
            r@ == pkt_data@,
    {
        RawPacketData {
            denom: pkt_data.token.denom.as_str().to_string(),
            amount: pkt_data.token.amount.as_str().to_string(),
            sender: pkt_data.sender.as_str().to_string(),
            receiver: pkt_data.receiver.as_str().to_string(),
        }
    }
}

/// Decoding what a valid packet encodes to gives the packet back.
///
/// `RawPacketData::from(p)` returns wire fields equal to `p@`; on fields that
/// satisfy `decodes`, `PacketData::try_from` returns `Ok(q)` with `q@` equal
/// to them. So the decoded packet has the denomination, amount and addresses
/// of `p`, the amount written with the same digits.
pub proof fn lemma_round_trip(p: PacketData, wire: RawPacketData)
    requires
        p.wf(),
        wire@ == p@,
    ensures
        decodes(wire@),
{
}

} // verus!
