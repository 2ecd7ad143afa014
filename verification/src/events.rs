use vstd::prelude::*;
use vstd::utf8::encode_utf8;

verus! {

/// A campaign was created. Field order matches the fixed payload layout:
/// campaign id, creator key, goal amount, deadline, then the length-prefixed
/// metadata URL.
pub struct CampaignCreated {
    pub campaign_id: u64,
    pub creator_pubkey: Vec<u8>,
    pub goal_amount: u64,
    pub deadline: i64,
    pub metadata_url: String,
}

/// A donation was made to a campaign.
pub struct CampaignDonated {
    pub campaign_id: u64,
    pub donor_pubkey: Vec<u8>,
    pub amount: u64,
}

/// A campaign's funds were withdrawn by its creator.
pub struct CampaignWithdrawn {
    pub campaign_id: u64,
    pub creator_pubkey: Vec<u8>,
    pub amount: u64,
}

/// One decoded domain event; at most one is extracted per transaction.
pub enum CampaignEvent {
    Created(CampaignCreated),
    Donated(CampaignDonated),
    Withdrawn(CampaignWithdrawn),
}

/// Mathematical image of `CampaignCreated`.
pub struct CampaignCreatedView {
    pub campaign_id: u64,
    pub creator_pubkey: Seq<u8>,
    pub goal_amount: u64,
    pub deadline: i64,
    pub metadata_url: Seq<char>,
}

/// Mathematical image of `CampaignDonated`.
pub struct CampaignDonatedView {
    pub campaign_id: u64,
    pub donor_pubkey: Seq<u8>,
    pub amount: u64,
}

/// Mathematical image of `CampaignWithdrawn`.
pub struct CampaignWithdrawnView {
    pub campaign_id: u64,
    pub creator_pubkey: Seq<u8>,
    pub amount: u64,
}

/// Mathematical image of `CampaignEvent`.
pub enum CampaignEventView {
    Created(CampaignCreatedView),
    Donated(CampaignDonatedView),
    Withdrawn(CampaignWithdrawnView),
}

impl View for CampaignCreated {
    type V = CampaignCreatedView;

    open spec fn view(&self) -> CampaignCreatedView {
        CampaignCreatedView {
            campaign_id: self.campaign_id,
            creator_pubkey: self.creator_pubkey@,
            goal_amount: self.goal_amount,
            deadline: self.deadline,
            metadata_url: self.metadata_url@,
        }
    }
}

impl View for CampaignDonated {
    type V = CampaignDonatedView;

    open spec fn view(&self) -> CampaignDonatedView {
        CampaignDonatedView {
            campaign_id: self.campaign_id,
            donor_pubkey: self.donor_pubkey@,
            amount: self.amount,
        }
    }
}

impl View for CampaignWithdrawn {
    type V = CampaignWithdrawnView;

    open spec fn view(&self) -> CampaignWithdrawnView {
        CampaignWithdrawnView {
            campaign_id: self.campaign_id,
            creator_pubkey: self.creator_pubkey@,
            amount: self.amount,
        }
    }
}

impl View for CampaignEvent {
    type V = CampaignEventView;

    open spec fn view(&self) -> CampaignEventView {
        match self {
            CampaignEvent::Created(e) => CampaignEventView::Created(e@),
            CampaignEvent::Donated(e) => CampaignEventView::Donated(e@),
            CampaignEvent::Withdrawn(e) => CampaignEventView::Withdrawn(e@),
        }
    }
}

impl CampaignCreatedView {
    /// A representable created event: the key is exactly 32 bytes and the
    /// URL's UTF-8 encoding fits the 32-bit length prefix of the layout.
    pub open spec fn wf(&self) -> bool {
        &&& self.creator_pubkey.len() == 32
        &&& encode_utf8(self.metadata_url).len() <= u32::MAX
    }
}

impl CampaignDonatedView {
    /// A representable donated event: the key is exactly 32 bytes.
    pub open spec fn wf(&self) -> bool {
        self.donor_pubkey.len() == 32
    }
}

impl CampaignWithdrawnView {
    /// A representable withdrawn event: the key is exactly 32 bytes.
    pub open spec fn wf(&self) -> bool {
        self.creator_pubkey.len() == 32
    }
}

} // verus!
