use vstd::prelude::*;

verus! {

/// Why a rate service could not give a rate.
#[derive(Debug, Clone, PartialEq, Eq)]
pub enum CurrencyServiceError {
    /// The provider rejected the source currency.
    SourceCurrencyError,
    /// The provider rejected a target currency, or did not quote it.
    TargetCurrencyError,
    /// Any other failure, with a diagnostic text.
    Other(String),
}

impl CurrencyServiceError {
    /// A human-readable text for the error.
    pub fn describe(&self) -> (r: String)
        ensures
            r@ == match self {
                CurrencyServiceError::SourceCurrencyError => "invalid source currency code"@,
                CurrencyServiceError::TargetCurrencyError => "invalid target currency code"@,
                CurrencyServiceError::Other(detail) => detail@,
            },
    {
        match self {
            CurrencyServiceError::SourceCurrencyError => String::from_str(
                "invalid source currency code",
            ),
            CurrencyServiceError::TargetCurrencyError => String::from_str(
                "invalid target currency code",
            ),
            CurrencyServiceError::Other(detail) => detail.clone(),
        }
    }
}

} // verus!
