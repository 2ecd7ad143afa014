use base64::Engine;
use solraiser::codec::{encode_created, encode_donated};
use solraiser::decoder::parse_anchor_event;
use solraiser::events::{CampaignCreated, CampaignDonated, CampaignEvent};

fn sample_created() -> CampaignCreated {
    CampaignCreated {
        campaign_id: 77,
        creator_pubkey: vec![0x42; 32],
        goal_amount: 500,
        deadline: 2_000_000_000,
        metadata_url: "ipfs://meta".to_string(),
    }
}

fn created_line() -> String {
    let mut data = vec![0xD0u8; 8];
    data.extend_from_slice(&encode_created(&sample_created()));
    format!(
        "Program data: {}",
        base64::engine::general_purpose::STANDARD.encode(&data)
    )
}

#[test]
fn program_data_line_decodes_to_the_event() {
    let logs = vec![
        "Program 62NbBCCxPfR83xtgw3AaxKGHyyDdxobrcCGzA7s7LFie invoke [1]".to_string(),
        created_line(),
        "Program consumed 1234 compute units".to_string(),
    ];
    match parse_anchor_event(&logs) {
        Some(CampaignEvent::Created(e)) => {
            assert_eq!(e.campaign_id, 77);
            assert_eq!(e.metadata_url, "ipfs://meta");
        }
        _ => panic!("the program-data line must decode to the created event"),
    }
}

#[test]
fn trailing_whitespace_after_the_marker_is_trimmed() {
    // If the remainder were decoded untrimmed, the base64 decode would fail.
    let logs = vec![format!("{}  \t", created_line())];
    assert!(matches!(
        parse_anchor_event(&logs),
        Some(CampaignEvent::Created(_))
    ));
}

#[test]
fn lines_without_the_marker_yield_no_event() {
    let encoded = base64::engine::general_purpose::STANDARD.encode([0u8; 56]);
    let logs = vec![
        "Program log: hello".to_string(),
        // Same payload, wrong marker: the prefix check must be exact.
        format!("Program datum: {}", encoded),
        format!("program data: {}", encoded),
    ];
    assert!(parse_anchor_event(&logs).is_none());
}

#[test]
fn non_base64_remainder_yields_no_event() {
    let logs = vec!["Program data: not-base64!!".to_string()];
    assert!(parse_anchor_event(&logs).is_none());
}

#[test]
fn data_shorter_than_the_kind_tag_yields_no_event() {
    let encoded = base64::engine::general_purpose::STANDARD.encode([1u8, 2, 3]);
    let logs = vec![format!("Program data: {}", encoded)];
    assert!(parse_anchor_event(&logs).is_none());
}

#[test]
fn kind_tag_alone_yields_no_event() {
    // Eight bytes of tag leave a zero-length payload, which no layout matches.
    let encoded = base64::engine::general_purpose::STANDARD.encode([0u8; 8]);
    let logs = vec![format!("Program data: {}", encoded)];
    assert!(parse_anchor_event(&logs).is_none());
}

#[test]
fn first_decodable_line_wins() {
    let mut donated = vec![0u8; 8];
    donated.extend_from_slice(&encode_donated(&CampaignDonated {
        campaign_id: 1,
        donor_pubkey: vec![0; 32],
        amount: 10,
    }));
    let donated_line = format!(
        "Program data: {}",
        base64::engine::general_purpose::STANDARD.encode(&donated)
    );
    let logs = vec![
        "Program data: AAAA".to_string(), // decodes, but too short: skipped
        donated_line,
        created_line(), // never reached
    ];
    assert!(matches!(
        parse_anchor_event(&logs),
        Some(CampaignEvent::Donated(_))
    ));
}

#[test]
fn empty_log_run_yields_no_event() {
    assert!(parse_anchor_event(&Vec::new()).is_none());
}

#[test]
fn kind_tag_contents_are_ignored() {
    // Two different tags before the same payload decode to the same event.
    let payload = encode_donated(&CampaignDonated {
        campaign_id: 5,
        donor_pubkey: vec![7; 32],
        amount: 99,
    });
    for tag in [[0u8; 8], [0xFFu8; 8]] {
        let mut data = tag.to_vec();
        data.extend_from_slice(&payload);
        let logs = vec![format!(
            "Program data: {}",
            base64::engine::general_purpose::STANDARD.encode(&data)
        )];
        match parse_anchor_event(&logs) {
            Some(CampaignEvent::Donated(e)) => assert_eq!(e.amount, 99),
            _ => panic!("the kind tag must not affect decoding"),
        }
    }
}
