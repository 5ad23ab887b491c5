use vstd::prelude::*;

verus! {

/// The character code after ASCII lower-casing: `'A'..='Z'` move to
/// `'a'..='z'`, every other character keeps its code.
pub open spec fn ascii_lower_code(c: char) -> u32 {
    if 65 <= c as u32 && c as u32 <= 90 {
        (c as u32 + 32) as u32
    } else {
        c as u32
    }
}

/// The text with every ASCII upper-case letter folded to lower case.
pub open spec fn ascii_fold(s: Seq<char>) -> Seq<u32> {
    s.map_values(|c: char| ascii_lower_code(c))
}

/// Two texts name the same currency when they agree up to ASCII case.
pub open spec fn codes_match(a: Seq<char>, b: Seq<char>) -> bool {
    ascii_fold(a) == ascii_fold(b)
}

/// A character with ASCII lower-case letters raised to upper case.
pub open spec fn ascii_upper_char(c: char) -> char {
    if 97 <= c as u32 && c as u32 <= 122 {
        ((c as u32 - 32) as u32) as char
    } else {
        c
    }
}

/// A text with every ASCII lower-case letter raised to upper case.
pub open spec fn ascii_upper(s: Seq<char>) -> Seq<char> {
    s.map_values(|c: char| ascii_upper_char(c))
}

/// Matching codes is an equivalence: every text matches itself, and
/// matching is symmetric and transitive.
pub proof fn lemma_codes_match_equivalence(a: Seq<char>, b: Seq<char>, c: Seq<char>)
    ensures
        codes_match(a, a),
        codes_match(a, b) ==> codes_match(b, a),
        codes_match(a, b) && codes_match(b, c) ==> codes_match(a, c),
{
}

/// A code matches the same text written in ASCII upper case: `usd`,
/// `Usd` and `USD` all name one currency.
pub proof fn lemma_code_ignores_ascii_case(s: Seq<char>)
    ensures
        codes_match(s, ascii_upper(s)),
{
    assert forall|i: int| 0 <= i < s.len() implies ascii_lower_code(s[i]) == ascii_lower_code(
        ascii_upper(s)[i],
    ) by {
        let c = s[i];
        if 97 <= c as u32 && c as u32 <= 122 {
            assert(ascii_upper_char(c) as u32 == c as u32 - 32);
        }
    }
    assert(ascii_fold(s) =~= ascii_fold(ascii_upper(s)));
}

/// A currency identifier such as `USD`.  Any text is accepted; whether it
/// names a real currency is for the rate provider to decide.
#[derive(Debug, Clone)]
pub struct CurrencyCode {
    code: String,
}

impl View for CurrencyCode {
    type V = Seq<char>;

    closed spec fn view(&self) -> Seq<char> {
        self.code@
    }
}

fn ascii_lower(c: char) -> (r: u32)
    ensures
        r == ascii_lower_code(c),
{
    let n: u32 = c as u32;
    if 65 <= n && n <= 90 {
        n + 32
    } else {
        n
    }
}

fn chars_of(s: &str) -> (r: Vec<char>)
    ensures
        r@ == s@,
{
    let mut r: Vec<char> = Vec::new();
    for c in it: s.chars()
        invariant
            r@ == it.history(),
    {
        r.push(c);
    }
    r
}

impl CurrencyCode {
    /// Reads a currency code from text; this never fails.
    pub fn parse(s: &str) -> (r: CurrencyCode)
        ensures
            r@ == s@,
    {
        CurrencyCode { code: String::from_str(s) }
    }

    /// Whether both codes name the same currency, ignoring ASCII case.
    pub fn same_as(&self, other: &CurrencyCode) -> (r: bool)
        ensures
            r == codes_match(self@, other@),
    {
        let a = chars_of(self.code.as_str());
        let b = chars_of(other.code.as_str());
        if a.len() != b.len() {
            proof {
                assert(ascii_fold(self@).len() != ascii_fold(other@).len());
            }
            return false;
        }
        let mut i: usize = 0;
        while i < a.len()
            invariant
                a@ == self@,
                b@ == other@,
                a.len() == b.len(),
                i <= a.len(),
                forall|j: int| 0 <= j < i ==> ascii_lower_code(a@[j]) == ascii_lower_code(b@[j]),
            decreases a.len() - i,
        {
            if ascii_lower(a[i]) != ascii_lower(b[i]) {
                proof {
                    assert(ascii_fold(self@)[i as int] != ascii_fold(other@)[i as int]);
                }
                return false;
            }
            i = i + 1;
        }
        proof {
            assert(ascii_fold(self@) =~= ascii_fold(other@));
        }
        true
    }
}


impl PartialEq for CurrencyCode {
    fn eq(&self, other: &CurrencyCode) -> (r: bool)
        ensures
            r == codes_match(self@, other@),
    {
        self.same_as(other)
    }
}

impl vstd::std_specs::cmp::PartialEqSpecImpl for CurrencyCode {
    open spec fn obeys_eq_spec() -> bool {
        true
    }

    open spec fn eq_spec(&self, other: &CurrencyCode) -> bool {
        codes_match(self@, other@)
    }
}

/// The upper-case form of a text, as `str::to_uppercase` computes it.
pub uninterp spec fn uppercase_of(s: Seq<char>) -> Seq<char>;

/// Relies on `str::to_uppercase`: the upper-case form of a text, which
/// depends on that text alone.
#[verifier::external_body]
fn uppercase(s: &str) -> (r: String)
    ensures
        r@ == uppercase_of(s@),
{
    s.to_uppercase()
}

impl CurrencyCode {
    /// The canonical, upper-case text of the code.
    pub fn to_string(&self) -> (r: String)
        ensures
            r@ == uppercase_of(self@),
    {
        uppercase(self.code.as_str())
    }
}

/// The rate that a list of (code, rate) pairs gives for `target`: that of
/// the first pair whose code matches, if any does.
pub open spec fn rate_lookup<R>(rates: Seq<(Seq<char>, R)>, target: Seq<char>) -> Option<R>
    decreases rates.len(),
{
    if rates.len() == 0 {
        None
    } else if codes_match(rates[0].0, target) {
        Some(rates[0].1)
    } else {
        rate_lookup(rates.drop_first(), target)
    }
}

/// Looking up two matching codes, such as `pln` and `PLN`, finds the same
/// rate.
pub proof fn lemma_lookup_respects_matching<R>(
    rates: Seq<(Seq<char>, R)>,
    a: Seq<char>,
    b: Seq<char>,
)
    requires
        codes_match(a, b),
    ensures
        rate_lookup(rates, a) == rate_lookup(rates, b),
    decreases rates.len(),
{
    if rates.len() > 0 {
        lemma_lookup_respects_matching(rates.drop_first(), a, b);
    }
}

/// Whether some pair of the list has a code that matches `code`.
pub open spec fn matches_any<R>(rates: Seq<(Seq<char>, R)>, code: Seq<char>) -> bool {
    exists|i: int| 0 <= i < rates.len() && codes_match(#[trigger] rates[i].0, code)
}

/// The list keeping only the first pair of each code, in order.
pub open spec fn first_occurrences<R>(rates: Seq<(Seq<char>, R)>) -> Seq<(Seq<char>, R)>
    decreases rates.len(),
{
    if rates.len() == 0 {
        rates
    } else {
        let kept = first_occurrences(rates.drop_last());
        if matches_any(rates.drop_last(), rates.last().0) {
            kept
        } else {
            kept.push(rates.last())
        }
    }
}

/// No two pairs of the list have matching codes.
pub open spec fn codes_distinct<R>(rates: Seq<(Seq<char>, R)>) -> bool {
    forall|i: int, j: int|
        0 <= i < j < rates.len() ==> !codes_match(#[trigger] rates[i].0, #[trigger] rates[j].0)
}

proof fn lemma_lookup_push<R>(rates: Seq<(Seq<char>, R)>, last: (Seq<char>, R), target: Seq<char>)
    ensures
        rate_lookup(rates.push(last), target) == match rate_lookup(rates, target) {
            Some(rate) => Some(rate),
            None => if codes_match(last.0, target) {
                Some(last.1)
            } else {
                None
            },
        },
    decreases rates.len(),
{
    if rates.len() > 0 {
        assert(rates.push(last).drop_first() =~= rates.drop_first().push(last));
        lemma_lookup_push(rates.drop_first(), last, target);
    } else {
        assert(rates.push(last).drop_first() =~= rates);
    }
}

proof fn lemma_lookup_none<R>(rates: Seq<(Seq<char>, R)>, target: Seq<char>)
    ensures
        rate_lookup(rates, target) is None <==> !matches_any(rates, target),
    decreases rates.len(),
{
    if rates.len() > 0 {
        lemma_lookup_none(rates.drop_first(), target);
        if matches_any(rates.drop_first(), target) {
            let i = choose|i: int|
                0 <= i < rates.drop_first().len() && codes_match(
                    #[trigger] rates.drop_first()[i].0,
                    target,
                );
            assert(codes_match(rates[i + 1].0, target));
        }
        if matches_any(rates, target) && !codes_match(rates[0].0, target) {
            let i = choose|i: int| 0 <= i < rates.len() && codes_match(#[trigger] rates[i].0, target);
            assert(codes_match(rates.drop_first()[i - 1].0, target));
        }
    }
}

proof fn lemma_lookup_at<R>(rates: Seq<(Seq<char>, R)>, target: Seq<char>, k: int)
    requires
        0 <= k < rates.len(),
        codes_match(rates[k].0, target),
        forall|j: int| 0 <= j < k ==> !codes_match(#[trigger] rates[j].0, target),
    ensures
        rate_lookup(rates, target) == Some(rates[k].1),
    decreases k,
{
    if k > 0 {
        assert(!codes_match(rates[0].0, target));
        assert forall|j: int| 0 <= j < k - 1 implies !codes_match(
            #[trigger] rates.drop_first()[j].0,
            target,
        ) by {
            assert(rates.drop_first()[j] == rates[j + 1]);
        }
        lemma_lookup_at(rates.drop_first(), target, k - 1);
    }
}

proof fn lemma_lookup_found<R>(rates: Seq<(Seq<char>, R)>, target: Seq<char>)
    requires
        rate_lookup(rates, target) is Some,
    ensures
        exists|i: int|
            0 <= i < rates.len() && codes_match(#[trigger] rates[i].0, target) && Some(rates[i].1)
                == rate_lookup(rates, target),
    decreases rates.len(),
{
    if !codes_match(rates[0].0, target) {
        lemma_lookup_found(rates.drop_first(), target);
        let i = choose|i: int|
            0 <= i < rates.drop_first().len() && codes_match(#[trigger] rates.drop_first()[i].0, target)
                && Some(rates.drop_first()[i].1) == rate_lookup(rates.drop_first(), target);
        assert(codes_match(rates[i + 1].0, target));
    } else {
        assert(codes_match(rates[0].0, target));
    }
}

proof fn lemma_first_occurrences_from<R>(rates: Seq<(Seq<char>, R)>)
    ensures
        forall|k: int|
            0 <= k < first_occurrences(rates).len() ==> exists|i: int|
                0 <= i < rates.len() && rates[i] == #[trigger] first_occurrences(rates)[k],
        codes_distinct(first_occurrences(rates)),
    decreases rates.len(),
{
    if rates.len() > 0 {
        let prefix = rates.drop_last();
        lemma_first_occurrences_from(prefix);
        let kept = first_occurrences(prefix);
        assert forall|k: int| 0 <= k < first_occurrences(rates).len() implies exists|i: int|
            0 <= i < rates.len() && rates[i] == #[trigger] first_occurrences(rates)[k] by {
            if k < kept.len() {
                let i = choose|i: int| 0 <= i < prefix.len() && prefix[i] == #[trigger] kept[k];
                assert(rates[i] == first_occurrences(rates)[k]);
            } else {
                assert(rates[rates.len() - 1] == first_occurrences(rates)[k]);
            }
        }
        if !matches_any(prefix, rates.last().0) {
            assert forall|i: int, j: int|
                0 <= i < j < first_occurrences(rates).len() implies !codes_match(
                #[trigger] first_occurrences(rates)[i].0,
                #[trigger] first_occurrences(rates)[j].0,
            ) by {
                if j == kept.len() {
                    let m = choose|m: int| 0 <= m < prefix.len() && prefix[m] == #[trigger] kept[i];
                    assert(!codes_match(prefix[m].0, rates.last().0));
                }
            }
        }
    }
}

proof fn lemma_first_occurrences_lookup<R>(rates: Seq<(Seq<char>, R)>, target: Seq<char>)
    ensures
        rate_lookup(first_occurrences(rates), target) == rate_lookup(rates, target),
    decreases rates.len(),
{
    if rates.len() > 0 {
        let prefix = rates.drop_last();
        let last = rates.last();
        assert(rates =~= prefix.push(last));
        lemma_first_occurrences_lookup(prefix, target);
        lemma_lookup_push(prefix, last, target);
        if matches_any(prefix, last.0) {
            if rate_lookup(prefix, target) is None && codes_match(last.0, target) {
                lemma_lookup_none(prefix, target);
                let i = choose|i: int| 0 <= i < prefix.len() && codes_match(#[trigger] prefix[i].0, last.0);
                assert(codes_match(prefix[i].0, target));
            }
        } else {
            lemma_lookup_push(first_occurrences(prefix), last, target);
        }
    }
}

/// The pairs that a rate set writes to the cache (the first pair of each
/// code), read back in any order and with any repetition, give the same
/// rate for every target as the set itself.  What is read back is given as
/// a list that holds exactly the pairs written.
pub proof fn lemma_cache_entries_read_back<R>(
    rates: Seq<(Seq<char>, R)>,
    read_back: Seq<(Seq<char>, R)>,
    target: Seq<char>,
)
    requires
        forall|x: (Seq<char>, R)| read_back.contains(x) <==> first_occurrences(rates).contains(x),
    ensures
        rate_lookup(read_back, target) == rate_lookup(rates, target),
{
    let written = first_occurrences(rates);
    lemma_first_occurrences_from(rates);
    lemma_first_occurrences_lookup(rates, target);
    lemma_lookup_none(read_back, target);
    lemma_lookup_none(written, target);
    if rate_lookup(read_back, target) is Some {
        lemma_lookup_found(read_back, target);
        let i = choose|i: int|
            0 <= i < read_back.len() && codes_match(#[trigger] read_back[i].0, target) && Some(
                read_back[i].1,
            ) == rate_lookup(read_back, target);
        assert(read_back.contains(read_back[i]));
        let k = choose|k: int| 0 <= k < written.len() && written[k] == read_back[i];
        assert forall|j: int| 0 <= j < k implies !codes_match(#[trigger] written[j].0, target) by {
            assert(!codes_match(written[j].0, written[k].0));
        }
        lemma_lookup_at(written, target, k);
    } else if rate_lookup(written, target) is Some {
        let k = choose|k: int| 0 <= k < written.len() && codes_match(#[trigger] written[k].0, target);
        assert(written.contains(written[k]));
        assert(read_back.contains(written[k]));
        let i = choose|i: int| 0 <= i < read_back.len() && read_back[i] == written[k];
        assert(codes_match(read_back[i].0, target));
    }
}

/// The pairs of codes and rates, with each code seen as its text.
pub open spec fn pairs_view<R>(pairs: Seq<(CurrencyCode, R)>) -> Seq<(Seq<char>, R)> {
    pairs.map_values(|p: (CurrencyCode, R)| (p.0@, p.1))
}

/// The pairs of texts and rates as a provider's response lists them.
pub open spec fn entries_view<R>(entries: Seq<(String, R)>) -> Seq<(Seq<char>, R)> {
    entries.map_values(|p: (String, R)| (p.0@, p.1))
}

/// The exchange rates of one base currency: an ordered list of target
/// codes with the rate of each.  Should a code occur twice, the first
/// occurrence is the one that lookups find.
#[derive(Debug, Clone, PartialEq)]
pub struct ExchangeRates<R> {
    rates: Vec<(CurrencyCode, R)>,
}

impl<R> View for ExchangeRates<R> {
    type V = Seq<(Seq<char>, R)>;

    closed spec fn view(&self) -> Seq<(Seq<char>, R)> {
        pairs_view(self.rates@)
    }
}

proof fn lemma_lookup_skip<R>(rates: Seq<(Seq<char>, R)>, target: Seq<char>, i: int)
    requires
        0 <= i < rates.len(),
    ensures
        rate_lookup(rates.subrange(i, rates.len() as int), target) == if codes_match(
            rates[i].0,
            target,
        ) {
            Some(rates[i].1)
        } else {
            rate_lookup(rates.subrange(i + 1, rates.len() as int), target)
        },
{
    let rest = rates.subrange(i, rates.len() as int);
    assert(rest[0] == rates[i]);
    assert(rest.drop_first() =~= rates.subrange(i + 1, rates.len() as int));
}

impl<R: Copy> ExchangeRates<R> {
    /// A rate set holding the given pairs in their order.
    pub fn new(rates: Vec<(CurrencyCode, R)>) -> (r: ExchangeRates<R>)
        ensures
            r@ == pairs_view(rates@),
    {
        ExchangeRates { rates }
    }

    /// A rate set from the (code text, rate) entries of a response, in
    /// their order, each text read as a currency code.
    pub fn from_entries(entries: &Vec<(String, R)>) -> (r: ExchangeRates<R>)
        ensures
            r@ == entries_view(entries@),
    {
        let mut rates: Vec<(CurrencyCode, R)> = Vec::new();
        let mut i: usize = 0;
        while i < entries.len()
            invariant
                i <= entries.len(),
                pairs_view(rates@) =~= entries_view(entries@).subrange(0, i as int),
            decreases entries.len() - i,
        {
            let code = CurrencyCode::parse(entries[i].0.as_str());
            let ghost before = rates@;
            rates.push((code, entries[i].1));
            proof {
                assert(rates@ == before.push((code, entries@[i as int].1)));
                assert(pairs_view(rates@) =~= pairs_view(before).push((code@, entries@[i as int].1)));
            }
            i = i + 1;
        }
        ExchangeRates { rates }
    }

    /// The number of pairs.
    pub fn len(&self) -> (r: usize)
        ensures
            r == self@.len(),
    {
        self.rates.len()
    }

    /// The pairs, in their order.
    pub fn rates(&self) -> (r: &Vec<(CurrencyCode, R)>)
        ensures
            pairs_view(r@) == self@,
    {
        &self.rates
    }

    /// The pairs to write when the set is cached: the first pair of each
    /// code, in their order, each code as its own text.
    pub fn cache_entries(&self) -> (r: Vec<(String, R)>)
        ensures
            entries_view(r@) == first_occurrences(self@),
    {
        let mut out: Vec<(String, R)> = Vec::new();
        let mut i: usize = 0;
        proof {
            assert(self@.take(0) =~= Seq::<(Seq<char>, R)>::empty());
            assert(entries_view(out@) =~= Seq::<(Seq<char>, R)>::empty());
        }
        while i < self.rates.len()
            invariant
                i <= self.rates.len(),
                entries_view(out@) == first_occurrences(self@.take(i as int)),
            decreases self.rates.len() - i,
        {
            let ghost code = self@[i as int].0;
            let mut seen = false;
            let mut j: usize = 0;
            while j < i
                invariant
                    j <= i,
                    i < self.rates.len(),
                    code == self@[i as int].0,
                    seen == matches_any(self@.take(j as int), code),
                decreases i - j,
            {
                let ghost before = seen;
                if self.rates[j].0.same_as(&self.rates[i].0) {
                    seen = true;
                }
                proof {
                    let next = self@.take(j as int + 1);
                    assert(next[j as int] == self@[j as int]);
                    if before {
                        let m = choose|m: int|
                            0 <= m < j && codes_match(#[trigger] self@.take(j as int)[m].0, code);
                        assert(next[m] == self@.take(j as int)[m]);
                    }
                    if matches_any(next, code) && !codes_match(self@[j as int].0, code) {
                        let m = choose|m: int| 0 <= m < j + 1 && codes_match(#[trigger] next[m].0, code);
                        assert(next[m] == self@.take(j as int)[m]);
                    }
                }
                j = j + 1;
            }
            proof {
                assert(self@.take(i as int + 1).drop_last() =~= self@.take(i as int));
                assert(self@.take(i as int + 1).last() == self@[i as int]);
            }
            if !seen {
                let ghost before = out@;
                out.push((self.rates[i].0.code.clone(), self.rates[i].1));
                proof {
                    assert(entries_view(out@) =~= entries_view(before).push(self@[i as int]));
                }
            }
            i = i + 1;
        }
        proof {
            assert(self@.take(self@.len() as int) =~= self@);
        }
        out
    }

    /// The rate of the first pair whose code matches `target`.
    pub fn get_rate(&self, target: &CurrencyCode) -> (r: Option<R>)
        ensures
            r == rate_lookup(self@, target@),
    {
        let mut i: usize = 0;
        proof {
            assert(self@.subrange(0, self@.len() as int) =~= self@);
        }
        while i < self.rates.len()
            invariant
                i <= self.rates.len(),
                rate_lookup(self@, target@) == rate_lookup(
                    self@.subrange(i as int, self@.len() as int),
                    target@,
                ),
            decreases self.rates.len() - i,
        {
            proof {
                lemma_lookup_skip(self@, target@, i as int);
            }
            if self.rates[i].0.same_as(target) {
                return Some(self.rates[i].1);
            }
            i = i + 1;
        }
        proof {
            assert(self@.subrange(i as int, self@.len() as int).len() == 0);
        }
        None
    }
}

} // verus!
