use vstd::prelude::*;

verus! {

/// Page bounds for the recent-transaction listing.
pub struct PaginationParams {
    pub limit: i64,
    pub offset: i64,
}

/// A request to create a campaign, as the API accepts it.
pub struct CampaignCreateRequest {
    pub name: String,
    pub description: String,
    pub image_url: String,
    pub target_amount: u64,
    pub duration: u64,
    pub creator: String,
}

/// A request to fetch one transaction by signature.
pub struct TransactionSignatureRequest {
    pub transaction_signature: String,
}

/// The health endpoint's answer.
pub struct HealthResponse {
    pub status: String,
    pub timestamp: u64,
}

/// The health endpoint's answer, in the shape the main router serves.
pub struct HealthRespone {
    pub status: String,
    pub timestamp: u64,
}

/// A healthy answer stamped with the given time.
pub fn health_response(timestamp: u64) -> (r: HealthResponse)
    ensures
        r.status@ == "healthy"@,
        r.timestamp == timestamp,
{
    HealthResponse { status: "healthy".to_owned(), timestamp }
}

/// Whether a page of rows is served or answered with "not found": an empty
/// page is not served.
pub fn page_is_empty(row_count: usize) -> (empty: bool)
    ensures
        empty <==> row_count == 0,
{
    row_count == 0
}

} // verus!
