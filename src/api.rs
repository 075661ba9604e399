//! Request and response shapes of the HTTP interface.

use vstd::prelude::*;

verus! {

pub struct SignupRequest {
    pub username: String,
    pub password: String,
}

pub struct LoginRequest {
    pub username: String,
    pub password: String,
}

pub struct AuthResponse {
    pub user_id: String,
    pub username: String,
}

pub struct ErrorResponse {
    pub error: String,
}

pub struct StartBotResponse {
    pub success: bool,
    pub message: String,
}

/// `asset`, a timeframe such as `"1h"`, and a comma-separated list of
/// indicators such as `"sma_20,ema_12"`.
pub struct IndicatorQuery {
    pub asset: String,
    pub timeframe: String,
    pub indicators: String,
}

} // verus!
