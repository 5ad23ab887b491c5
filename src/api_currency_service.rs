use vstd::prelude::*;
use crate::currency_service::CurrencyServiceError;
use crate::http_client::{HttpError, http_error_text};
use crate::models::{CurrencyCode, ExchangeRates, entries_view, rate_lookup, uppercase_of};

verus! {

/// The field groups of the provider's validation error, each a list of
/// messages; a missing group is an empty list.
pub struct Errors {
    pub currencies: Vec<String>,
    pub base_currency: Vec<String>,
}

impl Errors {
    /// Whether the provider reported a problem with the source currency.
    pub fn base_currency_error(&self) -> (r: bool)
        ensures
            r == (self.base_currency@.len() > 0),
    {
        self.base_currency.len() > 0
    }

    /// Whether the provider reported a problem with the target currencies.
    pub fn currencies_error(&self) -> (r: bool)
        ensures
            r == (self.currencies@.len() > 0),
    {
        self.currencies.len() > 0
    }
}

/// The provider's validation error envelope, sent with status 422:
/// `{"message": .., "errors": {"base_currency": [..], "currencies": [..]}, "info": ..}`.
pub struct ApiValidationError {
    pub message: String,
    pub errors: Errors,
    pub info: String,
}

/// The error for a validation failure whose body is `body` and decodes as
/// `decoded` (or not, with a diagnostic text).  A rejected source currency
/// takes priority over rejected targets.
pub open spec fn validation_outcome(
    body: String,
    decoded: Result<ApiValidationError, String>,
) -> CurrencyServiceError {
    match decoded {
        Ok(envelope) => if envelope.errors.base_currency@.len() > 0 {
            CurrencyServiceError::SourceCurrencyError
        } else if envelope.errors.currencies@.len() > 0 {
            CurrencyServiceError::TargetCurrencyError
        } else {
            CurrencyServiceError::Other(body)
        },
        Err(detail) => CurrencyServiceError::Other(detail),
    }
}

/// The texts joined by commas.
pub open spec fn comma_joined(items: Seq<Seq<char>>) -> Seq<char>
    decreases items.len(),
{
    if items.len() == 0 {
        Seq::empty()
    } else if items.len() == 1 {
        items[0]
    } else {
        comma_joined(items.drop_last()) + ","@ + items.last()
    }
}

/// The provider URL for rates of `source` against `targets` (all targets
/// when there are none).
pub open spec fn request_url(
    api_url: Seq<char>,
    api_key: Seq<char>,
    source: Seq<char>,
    targets: Seq<Seq<char>>,
) -> Seq<char> {
    let base = api_url + "?apikey="@ + api_key + "&base_currency="@ + source;
    if targets.len() == 0 {
        base
    } else {
        base + "&currencies="@ + comma_joined(targets)
    }
}

/// The canonical texts of a list of codes.
pub open spec fn canonical_codes(codes: Seq<CurrencyCode>) -> Seq<Seq<char>> {
    codes.map_values(|c: CurrencyCode| uppercase_of(c@))
}

/// The texts of a list of strings.
pub open spec fn texts_view(texts: Seq<String>) -> Seq<Seq<char>> {
    texts.map_values(|t: String| t@)
}

/// What the adapter does with the result of its GET.
pub enum ResponseNext {
    /// The request succeeded: decode this body as the rates envelope.
    DecodeRates(String),
    /// The provider rejected the parameters: decode this body as an
    /// [`ApiValidationError`].
    DecodeValidationError(String),
    /// The request failed for good.
    Failed(CurrencyServiceError),
}

/// The adapter for the remote rate provider: it builds the request URL and
/// turns what came back into rates or a domain error.  Making the request
/// is the caller's part.
pub struct ApiCurrencyService {
    api_url: String,
    api_key: String,
}

impl View for ApiCurrencyService {
    type V = (Seq<char>, Seq<char>);

    closed spec fn view(&self) -> (Seq<char>, Seq<char>) {
        (self.api_url@, self.api_key@)
    }
}

proof fn lemma_comma_joined_push(items: Seq<Seq<char>>, i: int)
    requires
        1 <= i < items.len(),
    ensures
        comma_joined(items.take(i + 1)) == comma_joined(items.take(i)) + ","@ + items[i],
{
    assert(items.take(i + 1).drop_last() =~= items.take(i));
}

impl ApiCurrencyService {
    /// An adapter for the provider at `api_url`, authenticated by `api_key`.
    pub fn new(api_url: String, api_key: String) -> (r: ApiCurrencyService)
        ensures
            r@ == (api_url@, api_key@),
    {
        ApiCurrencyService { api_url, api_key }
    }

    /// The URL that asks for the rates of the currency written `source`
    /// against those written `targets`, or against every currency when
    /// there are none; the texts are used as they are.
    pub fn url_for_texts(&self, source: &str, targets: &Vec<String>) -> (r: String)
        ensures
            r@ == request_url(self@.0, self@.1, source@, texts_view(targets@)),
    {
        let mut r = self.api_url.clone();
        r.append("?apikey=");
        r.append(self.api_key.as_str());
        r.append("&base_currency=");
        r.append(source);
        if targets.len() == 0 {
            return r;
        }
        let ghost base = r@ + "&currencies="@;
        r.append("&currencies=");
        let ghost texts = texts_view(targets@);
        let mut i: usize = 0;
        while i < targets.len()
            invariant
                i <= targets.len(),
                texts == texts_view(targets@),
                r@ == base + comma_joined(texts.take(i as int)),
            decreases targets.len() - i,
        {
            proof {
                if i >= 1 {
                    lemma_comma_joined_push(texts, i as int);
                } else {
                    assert(texts.take(1) =~= seq![texts[0]]);
                    assert(texts.take(0) =~= Seq::<Seq<char>>::empty());
                }
            }
            if i > 0 {
                r.append(",");
            }
            r.append(targets[i].as_str());
            i = i + 1;
        }
        proof {
            assert(texts.take(targets.len() as int) =~= texts);
        }
        r
    }

    /// The URL that asks for the rates of `source` against `targets`, or
    /// against every currency when `targets` is empty; codes are written
    /// in their canonical upper-case form.
    pub fn request_url(&self, source: &CurrencyCode, targets: &Vec<CurrencyCode>) -> (r: String)
        ensures
            r@ == request_url(self@.0, self@.1, uppercase_of(source@), canonical_codes(targets@)),
    {
        let mut texts: Vec<String> = Vec::new();
        let mut i: usize = 0;
        while i < targets.len()
            invariant
                i <= targets.len(),
                texts_view(texts@) =~= canonical_codes(targets@).take(i as int),
            decreases targets.len() - i,
        {
            let text = targets[i].to_string();
            let ghost before = texts@;
            texts.push(text);
            proof {
                assert(texts_view(texts@) =~= texts_view(before).push(text@));
            }
            i = i + 1;
        }
        proof {
            assert(canonical_codes(targets@).take(targets.len() as int) =~= canonical_codes(targets@));
        }
        let src = source.to_string();
        self.url_for_texts(src.as_str(), &texts)
    }

    /// The URL that asks for every rate of `source`.
    pub fn rates_url(&self, source: &CurrencyCode) -> (r: String)
        ensures
            r@ == request_url(self@.0, self@.1, uppercase_of(source@), Seq::empty()),
    {
        let none: Vec<CurrencyCode> = Vec::new();
        proof {
            assert(canonical_codes(none@) =~= Seq::<Seq<char>>::empty());
        }
        self.request_url(source, &none)
    }

    /// The URL that asks for the rate of `source` against `target`.
    pub fn rate_url(&self, source: &CurrencyCode, target: &CurrencyCode) -> (r: String)
        ensures
            r@ == request_url(self@.0, self@.1, uppercase_of(source@), seq![uppercase_of(target@)]),
    {
        let mut texts: Vec<String> = Vec::new();
        texts.push(target.to_string());
        proof {
            assert(texts_view(texts@) =~= seq![uppercase_of(target@)]);
        }
        let src = source.to_string();
        self.url_for_texts(src.as_str(), &texts)
    }

    /// Sorts the result of the GET: a body to decode as rates, a body to
    /// decode as a validation error, or a failure that ends the request.
    pub fn after_fetch(fetched: Result<String, HttpError>) -> (r: ResponseNext)
        ensures
            match fetched {
                Ok(body) => r == ResponseNext::DecodeRates(body),
                Err(HttpError::ValidationError(body)) => r == ResponseNext::DecodeValidationError(
                    body,
                ),
                Err(e) => r matches ResponseNext::Failed(CurrencyServiceError::Other(detail))
                    && detail@ == http_error_text(e),
            },
    {
        match fetched {
            Ok(body) => ResponseNext::DecodeRates(body),
            Err(HttpError::ValidationError(body)) => ResponseNext::DecodeValidationError(body),
            Err(e) => ResponseNext::Failed(CurrencyServiceError::Other(e.describe())),
        }
    }

    /// The rates that a decoded success envelope gives, each code text of
    /// its `data` map read as a currency code; a body that did not decode
    /// is a failure.
    pub fn rates_from_data<R: Copy>(decoded: Result<Vec<(String, R)>, String>) -> (r: Result<
        ExchangeRates<R>,
        CurrencyServiceError,
    >)
        ensures
            match decoded {
                Ok(entries) => r matches Ok(rates) && rates@ == entries_view(entries@),
                Err(detail) => r == Err::<ExchangeRates<R>, _>(CurrencyServiceError::Other(detail)),
            },
    {
        match decoded {
            Ok(entries) => Ok(ExchangeRates::from_entries(&entries)),
            Err(detail) => Err(CurrencyServiceError::Other(detail)),
        }
    }

    /// The error for a validation failure with body `body`, decoded as
    /// `decoded`.
    pub fn validation_failure(body: String, decoded: Result<ApiValidationError, String>) -> (r:
        CurrencyServiceError)
        ensures
            r == validation_outcome(body, decoded),
    {
        match decoded {
            Ok(envelope) => if envelope.errors.base_currency_error() {
                CurrencyServiceError::SourceCurrencyError
            } else if envelope.errors.currencies_error() {
                CurrencyServiceError::TargetCurrencyError
            } else {
                CurrencyServiceError::Other(body)
            },
            Err(detail) => CurrencyServiceError::Other(detail),
        }
    }

    /// The rate for `target` out of the rates that a request gave; a
    /// target missing from them is reported as a rejected target.
    pub fn rate_from<R: Copy>(
        rates: Result<ExchangeRates<R>, CurrencyServiceError>,
        target: &CurrencyCode,
    ) -> (r: Result<R, CurrencyServiceError>)
        ensures
            match rates {
                Ok(set) => r == match rate_lookup(set@, target@) {
                    Some(rate) => Ok(rate),
                    None => Err(CurrencyServiceError::TargetCurrencyError),
                },
                Err(e) => r == Err::<R, CurrencyServiceError>(e),
            },
    {
        match rates {
            Ok(set) => match set.get_rate(target) {
                Some(rate) => Ok(rate),
                None => Err(CurrencyServiceError::TargetCurrencyError),
            },
            Err(e) => Err(e),
        }
    }
}

} // verus!
