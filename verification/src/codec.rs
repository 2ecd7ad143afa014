use vstd::prelude::*;
use vstd::bytes::{
    spec_u32_from_le_bytes, spec_u32_to_le_bytes, spec_u64_from_le_bytes, spec_u64_to_le_bytes,
    u32_from_le_bytes, u32_to_le_bytes, u64_from_le_bytes, u64_to_le_bytes,
    lemma_auto_spec_u32_to_from_le_bytes, lemma_auto_spec_u64_to_from_le_bytes,
};
use vstd::slice::{slice_subrange, slice_to_vec};
use vstd::utf8::{decode_utf8, encode_utf8, encode_utf8_decode_utf8, encode_utf8_valid_utf8,
    valid_utf8};
use crate::events::{
    CampaignCreated, CampaignCreatedView, CampaignDonated, CampaignDonatedView, CampaignEvent,
    CampaignEventView, CampaignWithdrawn, CampaignWithdrawnView,
};

verus! {

/// Bytes of the created layout before the variable-length URL: campaign id
/// (8), creator key (32), goal amount (8), deadline (8), URL length prefix (4).
pub const CREATED_HEADER_LEN: usize = 60;

/// Exact byte length of the donated and withdrawn layouts: campaign id (8),
/// key (32), amount (8).
pub const DONATED_LEN: usize = 48;

/// The created layout: `campaign_id: u64 | creator_pubkey: [u8; 32] |
/// goal_amount: u64 | deadline: i64 | metadata_url: u32 length + UTF-8 bytes`,
/// all integers little-endian, parsed only against the exact byte length.
pub open spec fn spec_parse_created(p: Seq<u8>) -> Option<CampaignCreatedView> {
    if p.len() >= CREATED_HEADER_LEN {
        let url_len = spec_u32_from_le_bytes(p.subrange(56, 60));
        let url_bytes = p.skip(60);
        if url_len == p.len() - CREATED_HEADER_LEN && valid_utf8(url_bytes) {
            Some(
                CampaignCreatedView {
                    campaign_id: spec_u64_from_le_bytes(p.subrange(0, 8)),
                    creator_pubkey: p.subrange(8, 40),
                    goal_amount: spec_u64_from_le_bytes(p.subrange(40, 48)),
                    deadline: spec_u64_from_le_bytes(p.subrange(48, 56)) as i64,
                    metadata_url: decode_utf8(url_bytes),
                },
            )
        } else {
            None
        }
    } else {
        None
    }
}

/// The donated layout: `campaign_id: u64 | donor_pubkey: [u8; 32] |
/// amount: u64`, little-endian, exactly 48 bytes.
pub open spec fn spec_parse_donated(p: Seq<u8>) -> Option<CampaignDonatedView> {
    if p.len() == DONATED_LEN {
        Some(
            CampaignDonatedView {
                campaign_id: spec_u64_from_le_bytes(p.subrange(0, 8)),
                donor_pubkey: p.subrange(8, 40),
                amount: spec_u64_from_le_bytes(p.subrange(40, 48)),
            },
        )
    } else {
        None
    }
}

/// The withdrawn layout: byte-identical to the donated layout, with the key
/// read as the creator.
pub open spec fn spec_parse_withdrawn(p: Seq<u8>) -> Option<CampaignWithdrawnView> {
    if p.len() == DONATED_LEN {
        Some(
            CampaignWithdrawnView {
                campaign_id: spec_u64_from_le_bytes(p.subrange(0, 8)),
                creator_pubkey: p.subrange(8, 40),
                amount: spec_u64_from_le_bytes(p.subrange(40, 48)),
            },
        )
    } else {
        None
    }
}

/// The candidate layouts are tried in a fixed priority order — created, then
/// donated, then withdrawn — and the first that parses against the exact byte
/// length wins. The kind tag that precedes the payload is not consulted, so
/// the withdrawn arm is unreachable: any 48-byte payload already parses as
/// donated. That ambiguity is deliberate in this decoder and is kept visible
/// here rather than hidden.
pub open spec fn spec_parse_event(p: Seq<u8>) -> Option<CampaignEventView> {
    match spec_parse_created(p) {
        Some(e) => Some(CampaignEventView::Created(e)),
        None => match spec_parse_donated(p) {
            Some(e) => Some(CampaignEventView::Donated(e)),
            None => match spec_parse_withdrawn(p) {
                Some(e) => Some(CampaignEventView::Withdrawn(e)),
                None => None,
            },
        },
    }
}

/// The byte image of a created event under the created layout.
pub open spec fn spec_encode_created(e: CampaignCreatedView) -> Seq<u8> {
    spec_u64_to_le_bytes(e.campaign_id) + e.creator_pubkey + spec_u64_to_le_bytes(e.goal_amount)
        + spec_u64_to_le_bytes(e.deadline as u64) + spec_u32_to_le_bytes(
        encode_utf8(e.metadata_url).len() as u32,
    ) + encode_utf8(e.metadata_url)
}

/// The byte image of a donated event under the donated layout.
pub open spec fn spec_encode_donated(e: CampaignDonatedView) -> Seq<u8> {
    spec_u64_to_le_bytes(e.campaign_id) + e.donor_pubkey + spec_u64_to_le_bytes(e.amount)
}

/// The byte image of a withdrawn event under the withdrawn layout.
pub open spec fn spec_encode_withdrawn(e: CampaignWithdrawnView) -> Seq<u8> {
    spec_u64_to_le_bytes(e.campaign_id) + e.creator_pubkey + spec_u64_to_le_bytes(e.amount)
}

/// Relies on `String::from_utf8`: it returns `Ok` exactly when the bytes are
/// valid UTF-8, and the returned string then holds exactly those bytes.
#[verifier::external_body]
fn string_from_utf8(bytes: Vec<u8>) -> (r: Option<String>)
    ensures
        r is Some <==> valid_utf8(bytes@),
        r matches Some(s) ==> encode_utf8(s@) == bytes@,
{
    String::from_utf8(bytes).ok()
}

/// Parse a payload against the created layout.
pub fn parse_created(payload: &[u8]) -> (r: Option<CampaignCreated>)
    ensures
        match r {
            Some(e) => spec_parse_created(payload@) == Some(e@),
            None => spec_parse_created(payload@) is None,
        },
{
    if payload.len() < CREATED_HEADER_LEN {
        return None;
    }
    let url_len = u32_from_le_bytes(slice_subrange(payload, 56, 60));
    if url_len as usize != payload.len() - CREATED_HEADER_LEN {
        return None;
    }
    let url_bytes = slice_to_vec(slice_subrange(payload, 60, payload.len()));
    match string_from_utf8(url_bytes) {
        Some(url) => {
            proof {
                assert(payload@.skip(60) =~= payload@.subrange(60, payload@.len() as int));
                encode_utf8_decode_utf8(url@);
            }
            Some(
                CampaignCreated {
                    campaign_id: u64_from_le_bytes(slice_subrange(payload, 0, 8)),
                    creator_pubkey: slice_to_vec(slice_subrange(payload, 8, 40)),
                    goal_amount: u64_from_le_bytes(slice_subrange(payload, 40, 48)),
                    deadline: u64_from_le_bytes(slice_subrange(payload, 48, 56)) as i64,
                    metadata_url: url,
                },
            )
        },
        None => None,
    }
}

/// Parse a payload against the donated layout.
pub fn parse_donated(payload: &[u8]) -> (r: Option<CampaignDonated>)
    ensures
        match r {
            Some(e) => spec_parse_donated(payload@) == Some(e@),
            None => spec_parse_donated(payload@) is None,
        },
{
    if payload.len() != DONATED_LEN {
        return None;
    }
    Some(
        CampaignDonated {
            campaign_id: u64_from_le_bytes(slice_subrange(payload, 0, 8)),
            donor_pubkey: slice_to_vec(slice_subrange(payload, 8, 40)),
            amount: u64_from_le_bytes(slice_subrange(payload, 40, 48)),
        },
    )
}

/// Parse a payload against the withdrawn layout.
pub fn parse_withdrawn(payload: &[u8]) -> (r: Option<CampaignWithdrawn>)
    ensures
        match r {
            Some(e) => spec_parse_withdrawn(payload@) == Some(e@),
            None => spec_parse_withdrawn(payload@) is None,
        },
{
    if payload.len() != DONATED_LEN {
        return None;
    }
    Some(
        CampaignWithdrawn {
            campaign_id: u64_from_le_bytes(slice_subrange(payload, 0, 8)),
            creator_pubkey: slice_to_vec(slice_subrange(payload, 8, 40)),
            amount: u64_from_le_bytes(slice_subrange(payload, 40, 48)),
        },
    )
}

/// Encode a created event under the created layout.
pub fn encode_created(e: &CampaignCreated) -> (out: Vec<u8>)
    requires
        e@.wf(),
    ensures
        out@ == spec_encode_created(e@),
{
    let mut out = u64_to_le_bytes(e.campaign_id);
    out.extend_from_slice(e.creator_pubkey.as_slice());
    let mut goal = u64_to_le_bytes(e.goal_amount);
    out.append(&mut goal);
    let mut deadline = u64_to_le_bytes(#[verifier::truncate] (e.deadline as u64));
    out.append(&mut deadline);
    let url_bytes = e.metadata_url.as_str().as_bytes();
    let mut len_prefix = u32_to_le_bytes(url_bytes.len() as u32);
    out.append(&mut len_prefix);
    out.extend_from_slice(url_bytes);
    proof {
        assert(out@ =~= spec_encode_created(e@));
    }
    out
}

/// Encode a donated event under the donated layout.
pub fn encode_donated(e: &CampaignDonated) -> (out: Vec<u8>)
    ensures
        out@ == spec_encode_donated(e@),
{
    let mut out = u64_to_le_bytes(e.campaign_id);
    out.extend_from_slice(e.donor_pubkey.as_slice());
    let mut amount = u64_to_le_bytes(e.amount);
    out.append(&mut amount);
    proof {
        assert(out@ =~= spec_encode_donated(e@));
    }
    out
}

/// Encode a withdrawn event under the withdrawn layout.
pub fn encode_withdrawn(e: &CampaignWithdrawn) -> (out: Vec<u8>)
    ensures
        out@ == spec_encode_withdrawn(e@),
{
    let mut out = u64_to_le_bytes(e.campaign_id);
    out.extend_from_slice(e.creator_pubkey.as_slice());
    let mut amount = u64_to_le_bytes(e.amount);
    out.append(&mut amount);
    proof {
        assert(out@ =~= spec_encode_withdrawn(e@));
    }
    out
}

/// Law: decoding the byte image of a created event reproduces every field
/// exactly, and yields the created kind.
pub proof fn lemma_created_round_trip(e: CampaignCreatedView)
    requires
        e.wf(),
    ensures
        spec_parse_event(spec_encode_created(e)) == Some(CampaignEventView::Created(e)),
{
    lemma_auto_spec_u64_to_from_le_bytes();
    lemma_auto_spec_u32_to_from_le_bytes();
    let p = spec_encode_created(e);
    let url_bytes = encode_utf8(e.metadata_url);
    let n = url_bytes.len();
    assert(spec_u64_to_le_bytes(e.campaign_id).len() == 8);
    assert(spec_u64_to_le_bytes(e.goal_amount).len() == 8);
    assert(spec_u64_to_le_bytes(e.deadline as u64).len() == 8);
    assert(spec_u32_to_le_bytes(n as u32).len() == 4);
    assert(p.len() == 60 + n);
    assert(p.subrange(0, 8) =~= spec_u64_to_le_bytes(e.campaign_id));
    assert(p.subrange(8, 40) =~= e.creator_pubkey);
    assert(p.subrange(40, 48) =~= spec_u64_to_le_bytes(e.goal_amount));
    assert(p.subrange(48, 56) =~= spec_u64_to_le_bytes(e.deadline as u64));
    assert(p.subrange(56, 60) =~= spec_u32_to_le_bytes(n as u32));
    assert(p.skip(60) =~= url_bytes);
    encode_utf8_valid_utf8(e.metadata_url);
    encode_utf8_decode_utf8(e.metadata_url);
    let d = e.deadline;
    assert((d as u64) as i64 == d) by (bit_vector);
    assert(spec_parse_created(p) == Some(e));
}

/// Law: decoding the byte image of a donated event reproduces every field
/// exactly, and yields the donated kind.
pub proof fn lemma_donated_round_trip(e: CampaignDonatedView)
    requires
        e.wf(),
    ensures
        spec_parse_event(spec_encode_donated(e)) == Some(CampaignEventView::Donated(e)),
{
    lemma_auto_spec_u64_to_from_le_bytes();
    let p = spec_encode_donated(e);
    assert(spec_u64_to_le_bytes(e.campaign_id).len() == 8);
    assert(spec_u64_to_le_bytes(e.amount).len() == 8);
    assert(p.len() == 48);
    assert(p.subrange(0, 8) =~= spec_u64_to_le_bytes(e.campaign_id));
    assert(p.subrange(8, 40) =~= e.donor_pubkey);
    assert(p.subrange(40, 48) =~= spec_u64_to_le_bytes(e.amount));
    assert(spec_parse_donated(p) == Some(e));
}

/// Law: the donated and withdrawn layouts are byte-identical and the decoder
/// never consults the kind tag, so decoding the byte image of a withdrawn
/// event reproduces every field exactly — campaign id, key and amount — but
/// yields the donated kind, which stands earlier in the priority order. The
/// misclassification is a property of the decode order itself, stated here
/// rather than hidden.
pub proof fn lemma_withdrawn_decodes_as_donated(e: CampaignWithdrawnView)
    requires
        e.wf(),
    ensures
        spec_parse_event(spec_encode_withdrawn(e)) == Some(
            CampaignEventView::Donated(
                CampaignDonatedView {
                    campaign_id: e.campaign_id,
                    donor_pubkey: e.creator_pubkey,
                    amount: e.amount,
                },
            ),
        ),
{
    lemma_auto_spec_u64_to_from_le_bytes();
    let p = spec_encode_withdrawn(e);
    assert(spec_u64_to_le_bytes(e.campaign_id).len() == 8);
    assert(spec_u64_to_le_bytes(e.amount).len() == 8);
    assert(p.len() == 48);
    assert(p.subrange(0, 8) =~= spec_u64_to_le_bytes(e.campaign_id));
    assert(p.subrange(8, 40) =~= e.creator_pubkey);
    assert(p.subrange(40, 48) =~= spec_u64_to_le_bytes(e.amount));
}

/// Law: a payload yields an event exactly when it matches one of the fixed
/// layouts — 48 bytes for donated/withdrawn, or a created header whose length
/// prefix equals the remaining byte count and whose URL bytes are valid
/// UTF-8. Every other payload, malformed or truncated, yields no event: the
/// decoder returns nothing rather than failing or returning partial data.
pub proof fn lemma_malformed_payload_yields_no_event(p: Seq<u8>)
    ensures
        spec_parse_event(p) is Some <==> (p.len() == DONATED_LEN || (p.len()
            >= CREATED_HEADER_LEN && spec_u32_from_le_bytes(p.subrange(56, 60)) == p.len()
            - CREATED_HEADER_LEN && valid_utf8(p.skip(60)))),
{
}

/// Try the candidate layouts in their fixed priority order; the first that
/// parses against the exact byte length wins.
pub fn parse_event_payload(payload: &[u8]) -> (r: Option<CampaignEvent>)
    ensures
        match r {
            Some(e) => spec_parse_event(payload@) == Some(e@),
            None => spec_parse_event(payload@) is None,
        },
{
    if let Some(e) = parse_created(payload) {
        return Some(CampaignEvent::Created(e));
    }
    if let Some(e) = parse_donated(payload) {
        return Some(CampaignEvent::Donated(e));
    }
    if let Some(e) = parse_withdrawn(payload) {
        return Some(CampaignEvent::Withdrawn(e));
    }
    None
}

} // verus!
