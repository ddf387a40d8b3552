use relayer_tx::packet::{CodecError, Decimal, Denom, PacketData, RawPacketData, Signer};

fn raw(denom: &str, amount: &str, sender: &str, receiver: &str) -> RawPacketData {
    RawPacketData {
        denom: denom.to_string(),
        amount: amount.to_string(),
        sender: sender.to_string(),
        receiver: receiver.to_string(),
    }
}

#[test]
fn decode_valid_packet() {
    let p = PacketData::try_from(raw("uatom", "10", "alice", "bob")).unwrap();
    assert_eq!(p.token.denom.as_str(), "uatom");
    assert_eq!(p.token.amount.as_str(), "10");
    assert_eq!(p.sender.as_str(), "alice");
    assert_eq!(p.receiver.as_str(), "bob");
}

#[test]
fn round_trip_packet() {
    let p = PacketData {
        token: relayer_tx::packet::Coin {
            denom: Denom::parse("transfer/channel-0/uatom").unwrap(),
            amount: Decimal::parse("1250.75").unwrap(),
        },
        sender: Signer::new("cosmos1sender".to_string()),
        receiver: Signer::new("cosmos1receiver".to_string()),
    };
    let wire = RawPacketData::from(p.clone());
    assert_eq!(wire, raw("transfer/channel-0/uatom", "1250.75", "cosmos1sender", "cosmos1receiver"));
    assert_eq!(PacketData::try_from(wire), Ok(p));
}

#[test]
fn amount_text_is_kept_as_written() {
    let p = PacketData::try_from(raw("uatom", "1.0", "a", "b")).unwrap();
    assert_eq!(RawPacketData::from(p).amount, "1.0");
    let q = PacketData::try_from(raw("uatom", "1", "a", "b")).unwrap();
    assert_eq!(RawPacketData::from(q).amount, "1");
}

#[test]
fn decode_rejects_invalid_amount() {
    let r = PacketData::try_from(raw("uatom", "not-a-number", "a", "b"));
    assert_eq!(r, Err(CodecError::InvalidAmount("not-a-number".to_string())));
}

#[test]
fn decode_rejects_empty_denom() {
    let r = PacketData::try_from(raw("", "10", "a", "b"));
    assert_eq!(r, Err(CodecError::InvalidDenom(String::new())));
}

#[test]
fn denom_is_checked_before_amount() {
    let r = PacketData::try_from(raw("9atom", "x", "a", "b"));
    assert_eq!(r, Err(CodecError::InvalidDenom("9atom".to_string())));
}

#[test]
fn denom_grammar_edges() {
    assert!(Denom::parse("a").is_ok());
    assert!(Denom::parse("ibc/27394FB092D2ECCD56123C74F36E4C1F926001CEADA9CA97EA622B25F41E5EB2").is_ok());
    assert!(Denom::parse("pool:a.b_c-d").is_ok());
    let longest = "a".repeat(128);
    assert!(Denom::parse(&longest).is_ok());
    let too_long = "a".repeat(129);
    assert_eq!(Denom::parse(&too_long), Err(CodecError::InvalidDenom(too_long.clone())));
    assert!(Denom::parse("u atom").is_err());
    assert!(Denom::parse("/uatom").is_err());
    assert!(Denom::parse("uatom\u{e9}").is_err());
}

#[test]
fn amount_grammar_edges() {
    for ok in ["0", "007", "0.5", "10.000", "123456789012345678901234567890.1"] {
        assert_eq!(Decimal::parse(ok).unwrap().as_str(), ok);
    }
    for bad in ["", ".", ".5", "5.", "1.2.3", "-1", "+1", "1e3", " 1", "1 ", "1,5"] {
        assert_eq!(Decimal::parse(bad), Err(CodecError::InvalidAmount(bad.to_string())));
    }
}

#[test]
fn signer_accepts_any_string() {
    let p = PacketData::try_from(raw("uatom", "3", "", "not an address!")).unwrap();
    assert_eq!(p.sender.as_str(), "");
    assert_eq!(p.receiver.as_str(), "not an address!");
}
