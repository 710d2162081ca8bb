//! The bucket classifier: reply-to-bucket resolution, search-query and prompt
//! synthesis, and the fallback chain over the configured providers.

use vstd::prelude::*;
use crate::config::Config;
use crate::models::Transaction;
use crate::text::{lower_of, lowercase, contains_seq, contains_sub, shares_word, shares_word_exec,
    clone_string_vec, join_with, join_seq, fmt_cents, cents_str};

verus! {

/// The terminal bucket, returned when no strategy yields anything better.
pub const BUCKET_OTHER: &'static str = "Other";

/// A failed classification attempt: the reply resolved to the terminal
/// bucket, which counts as failure so that the next strategy may run.
#[derive(Debug)]
pub enum ClassifyError {
    ReturnedOther,
}

impl ClassifyError {
    /// The diagnostic carried by this error.
    pub fn message(&self) -> (r: String)
        ensures
            match self {
                ClassifyError::ReturnedOther => r@ == "Classification returned 'Other' bucket"@,
            },
    {
        match self {
            ClassifyError::ReturnedOther => String::from_str(
                "Classification returned 'Other' bucket",
            ),
        }
    }
}

/// Classifies transactions into the configured buckets; holds which
/// collaborators are configured, never the collaborators themselves.
pub struct BucketClassifier {
    pub has_gemini: bool,
    pub has_ollama: bool,
    pub has_search: bool,
    pub buckets: Vec<String>,
    pub city: Option<String>,
}

/// The first configured bucket whose lowercased name is a substring of the
/// lowercased reply.
pub open spec fn first_sub_match(rl: Seq<char>, bs: Seq<Seq<char>>) -> Option<Seq<char>>
    decreases bs.len(),
{
    if bs.len() == 0 {
        None
    } else if contains_seq(rl, lower_of(bs.first())) {
        Some(bs.first())
    } else {
        first_sub_match(rl, bs.drop_first())
    }
}

/// The first configured bucket that shares a whitespace-delimited word with
/// the lowercased reply.
pub open spec fn first_word_match(rl: Seq<char>, bs: Seq<Seq<char>>) -> Option<Seq<char>>
    decreases bs.len(),
{
    if bs.len() == 0 {
        None
    } else if shares_word(rl, lower_of(bs.first())) {
        Some(bs.first())
    } else {
        first_word_match(rl, bs.drop_first())
    }
}

/// The bucket a model reply resolves to: the substring pass first, the
/// word-match pass second, the terminal bucket last. A pure function of the
/// reply and the configured bucket list.
pub open spec fn best_bucket_match(reply: Seq<char>, bs: Seq<Seq<char>>) -> Seq<char> {
    match first_sub_match(lower_of(reply), bs) {
        Some(b) => b,
        None => match first_word_match(lower_of(reply), bs) {
            Some(b) => b,
            None => BUCKET_OTHER@,
        },
    }
}

/// Whatever the substring pass returns is one of the buckets.
proof fn lemma_first_sub_match_member(rl: Seq<char>, bs: Seq<Seq<char>>)
    ensures
        first_sub_match(rl, bs) matches Some(b) ==> bs.contains(b),
    decreases bs.len(),
{
    if bs.len() > 0 && !contains_seq(rl, lower_of(bs.first())) {
        lemma_first_sub_match_member(rl, bs.drop_first());
        let m = first_sub_match(rl, bs.drop_first());
        if m is Some {
            let b = m->0;
            let i = choose|i: int| 0 <= i < bs.drop_first().len() && bs.drop_first()[i] == b;
            assert(bs[i + 1] == b);
        }
    }
}

/// Whatever the word pass returns is one of the buckets.
proof fn lemma_first_word_match_member(rl: Seq<char>, bs: Seq<Seq<char>>)
    ensures
        first_word_match(rl, bs) matches Some(b) ==> bs.contains(b),
    decreases bs.len(),
{
    if bs.len() > 0 && !shares_word(rl, lower_of(bs.first())) {
        lemma_first_word_match_member(rl, bs.drop_first());
        let m = first_word_match(rl, bs.drop_first());
        if m is Some {
            let b = m->0;
            let i = choose|i: int| 0 <= i < bs.drop_first().len() && bs.drop_first()[i] == b;
            assert(bs[i + 1] == b);
        }
    }
}

/// Bucket totality: whenever the terminal bucket stands in the configured
/// list, the resolved bucket is a member of that list, for every reply.
pub proof fn lemma_bucket_totality(reply: Seq<char>, bs: Seq<Seq<char>>)
    requires
        bs.contains(BUCKET_OTHER@),
    ensures
        bs.contains(best_bucket_match(reply, bs)),
{
    lemma_first_sub_match_member(lower_of(reply), bs);
    lemma_first_word_match_member(lower_of(reply), bs);
}

/// The substring pass prefers the earliest configured bucket: when bucket `i`
/// matches as a substring and no earlier bucket does, the reply resolves to
/// bucket `i`, whatever the word pass would say.
pub proof fn lemma_match_earliest(reply: Seq<char>, bs: Seq<Seq<char>>, i: int)
    requires
        0 <= i < bs.len(),
        contains_seq(lower_of(reply), lower_of(bs[i])),
        forall|j: int| 0 <= j < i ==> !contains_seq(lower_of(reply), lower_of(#[trigger] bs[j])),
    ensures
        best_bucket_match(reply, bs) == bs[i],
{
    lemma_sub_match_at(lower_of(reply), bs, i);
}

/// Helper induction for the earliest-match law.
proof fn lemma_sub_match_at(rl: Seq<char>, bs: Seq<Seq<char>>, i: int)
    requires
        0 <= i < bs.len(),
        contains_seq(rl, lower_of(bs[i])),
        forall|j: int| 0 <= j < i ==> !contains_seq(rl, lower_of(#[trigger] bs[j])),
    ensures
        first_sub_match(rl, bs) == Some(bs[i]),
    decreases i,
{
    if i > 0 {
        lemma_sub_match_at(rl, bs.drop_first(), i - 1);
        assert(forall|j: int|
            0 <= j < i - 1 ==> bs.drop_first()[j] == #[trigger] bs[j + 1]);
        assert(bs.drop_first()[i - 1] == bs[i]);
    }
}

impl BucketClassifier {
    /// Builds the classifier from the configuration: each collaborator is
    /// held as configured or not, and the bucket list and city are copied in.
    /// The second provider is enabled by the `model` argument, as the caller
    /// selects which model it runs.
    pub fn new(model: Option<String>, config: &Config) -> (r: BucketClassifier)
        ensures
            r.has_gemini == (config.gemini.api_key is Some && config.gemini.model is Some),
            r.has_ollama == (model is Some),
            r.has_search == (config.google_search.api_key is Some
                && config.google_search.engine_id is Some),
            r.buckets@ == config.buckets.categories@,
            r.city == config.city,
    {
        let has_gemini = config.gemini.api_key.is_some() && config.gemini.model.is_some();
        let has_ollama = model.is_some();
        let has_search = config.google_search.api_key.is_some()
            && config.google_search.engine_id.is_some();
        let buckets = clone_string_vec(&config.buckets.categories);
        let city = match &config.city {
            Some(c) => Some(c.clone()),
            None => None,
        };
        BucketClassifier { has_gemini, has_ollama, has_search, buckets, city }
    }

    /// The configured bucket names as character sequences.
    pub open spec fn bucket_views(&self) -> Seq<Seq<char>> {
        self.buckets@.map_values(|b: String| b@)
    }

    /// Resolves a model reply to a bucket: the first configured bucket whose
    /// lowercased name occurs in the lowercased reply; failing that, the
    /// first that shares a whitespace-delimited word with it; failing that,
    /// the terminal bucket. Never fails.
    pub fn find_best_bucket_match(&self, response: &str) -> (r: Result<String, ClassifyError>)
        ensures
            r matches Ok(b) && b@ == best_bucket_match(response@, self.bucket_views()),
    {
        let ghost bs = self.bucket_views();
        let rl = lowercase(response);
        proof {
            assert(bs.skip(0) =~= bs);
        }
        let mut i: usize = 0;
        while i < self.buckets.len()
            invariant
                i <= self.buckets.len(),
                bs == self.bucket_views(),
                rl@ == lower_of(response@),
                first_sub_match(rl@, bs) == first_sub_match(rl@, bs.skip(i as int)),
            decreases self.buckets.len() - i,
        {
            let bl = lowercase(self.buckets[i].as_str());
            proof {
                assert(bs.skip(i as int).first() == bs[i as int]);
                assert(bs[i as int] == self.buckets@[i as int]@);
            }
            if contains_sub(rl.as_str(), bl.as_str()) {
                return Ok(self.buckets[i].clone());
            }
            proof {
                assert(bs.skip(i as int).drop_first() =~= bs.skip(i + 1));
            }
            i = i + 1;
        }
        proof {
            assert(bs.skip(bs.len() as int) =~= Seq::<Seq<char>>::empty());
            assert(bs.skip(0) =~= bs);
        }
        let mut i: usize = 0;
        while i < self.buckets.len()
            invariant
                i <= self.buckets.len(),
                bs == self.bucket_views(),
                rl@ == lower_of(response@),
                first_sub_match(rl@, bs) is None,
                first_word_match(rl@, bs) == first_word_match(rl@, bs.skip(i as int)),
            decreases self.buckets.len() - i,
        {
            let bl = lowercase(self.buckets[i].as_str());
            proof {
                assert(bs.skip(i as int).first() == bs[i as int]);
                assert(bs[i as int] == self.buckets@[i as int]@);
            }
            if shares_word_exec(rl.as_str(), bl.as_str()) {
                return Ok(self.buckets[i].clone());
            }
            proof {
                assert(bs.skip(i as int).drop_first() =~= bs.skip(i + 1));
            }
            i = i + 1;
        }
        proof {
            assert(bs.skip(bs.len() as int) =~= Seq::<Seq<char>>::empty());
        }
        Ok(String::from_str(BUCKET_OTHER))
    }
}

/// One rung of the fallback chain.
#[derive(Clone, Copy, PartialEq, Eq, Structural, Debug)]
pub enum Strategy {
    /// The first provider, instructed to perform its own retrieval.
    LlmABuiltinSearch,
    /// The second provider, with context fetched through the search provider.
    LlmBWithExternalSearch,
    /// The second provider alone.
    LlmBOnly,
}

/// What one classification attempt came back with: a reply, or a provider
/// failure that the chain swallows.
#[derive(Debug)]
pub enum AttemptOutcome {
    Reply(String),
    Failed,
}

/// The ordered strategy list that a classifier's configured collaborators
/// admit.
pub open spec fn spec_strategies(c: BucketClassifier) -> Seq<Strategy> {
    (if c.has_gemini {
        seq![Strategy::LlmABuiltinSearch]
    } else {
        Seq::<Strategy>::empty()
    }) + (if c.has_ollama && c.has_search {
        seq![Strategy::LlmBWithExternalSearch]
    } else {
        Seq::<Strategy>::empty()
    }) + (if c.has_ollama {
        seq![Strategy::LlmBOnly]
    } else {
        Seq::<Strategy>::empty()
    })
}

/// What one outcome contributes to the chain: the resolved bucket when the
/// attempt replied and the reply resolves past the terminal bucket, nothing
/// otherwise.
pub open spec fn spec_classify_step(bs: Seq<Seq<char>>, o: AttemptOutcome) -> Option<Seq<char>> {
    match o {
        AttemptOutcome::Reply(s) => if best_bucket_match(s@, bs) != BUCKET_OTHER@ {
            Some(best_bucket_match(s@, bs))
        } else {
            None
        },
        AttemptOutcome::Failed => None,
    }
}

/// The bucket the fallback chain settles on: the first outcome that resolves
/// past the terminal bucket wins; when none does, the terminal bucket stands.
pub open spec fn spec_classify(bs: Seq<Seq<char>>, outcomes: Seq<AttemptOutcome>) -> Seq<char>
    decreases outcomes.len(),
{
    if outcomes.len() == 0 {
        BUCKET_OTHER@
    } else {
        match spec_classify_step(bs, outcomes.first()) {
            Some(b) => b,
            None => spec_classify(bs, outcomes.drop_first()),
        }
    }
}

/// Fallback short-circuit: when the first attempt resolves to a bucket, that
/// bucket is the chain's answer, whatever the later attempts would have
/// returned - so no later strategy need run at all.
pub proof fn lemma_fallback_short_circuit(
    bs: Seq<Seq<char>>,
    first: AttemptOutcome,
    rest_a: Seq<AttemptOutcome>,
    rest_b: Seq<AttemptOutcome>,
)
    requires
        spec_classify_step(bs, first) is Some,
    ensures
        spec_classify(bs, seq![first] + rest_a) == spec_classify_step(bs, first)->0,
        spec_classify(bs, seq![first] + rest_a) == spec_classify(bs, seq![first] + rest_b),
{
    assert((seq![first] + rest_a).first() == first);
    assert((seq![first] + rest_b).first() == first);
}

/// Fallback ordering: when the first attempt fails or resolves to the
/// terminal bucket, the chain's answer is whatever the remaining attempts
/// settle on.
pub proof fn lemma_fallback_next(
    bs: Seq<Seq<char>>,
    first: AttemptOutcome,
    rest: Seq<AttemptOutcome>,
)
    requires
        spec_classify_step(bs, first) is None,
    ensures
        spec_classify(bs, seq![first] + rest) == spec_classify(bs, rest),
{
    assert((seq![first] + rest).first() == first);
    assert((seq![first] + rest).drop_first() =~= rest);
}

/// Chain totality: whenever the terminal bucket stands in the list, the
/// chain's answer is a member of the list, for every outcome sequence.
pub proof fn lemma_classify_totality(bs: Seq<Seq<char>>, outcomes: Seq<AttemptOutcome>)
    requires
        bs.contains(BUCKET_OTHER@),
    ensures
        bs.contains(spec_classify(bs, outcomes)),
    decreases outcomes.len(),
{
    if outcomes.len() > 0 {
        match spec_classify_step(bs, outcomes.first()) {
            Some(b) => {
                match outcomes.first() {
                    AttemptOutcome::Reply(s) => {
                        lemma_bucket_totality(s@, bs);
                    },
                    AttemptOutcome::Failed => {},
                }
            },
            None => {
                lemma_classify_totality(bs, outcomes.drop_first());
            },
        }
    }
}

impl BucketClassifier {
    /// The ordered strategy list, constructed once from the configured
    /// collaborators; the chain iterates it in order.
    pub fn strategies(&self) -> (v: Vec<Strategy>)
        ensures
            v@ == spec_strategies(*self),
    {
        let mut v: Vec<Strategy> = Vec::new();
        if self.has_gemini {
            v.push(Strategy::LlmABuiltinSearch);
        }
        if self.has_ollama && self.has_search {
            v.push(Strategy::LlmBWithExternalSearch);
        }
        if self.has_ollama {
            v.push(Strategy::LlmBOnly);
        }
        proof {
            assert(v@ =~= spec_strategies(*self));
        }
        v
    }

    /// The query handed to the search provider for a transaction
    /// description: a lowercased what-is question, placed in the configured
    /// city when one is set.
    pub fn generate_search_query(&self, description: &str) -> (r: String)
        ensures
            r@ == spec_search_query(*self, description@),
    {
        let mut q = String::new();
        q.append("what is ");
        let low = lowercase(description);
        q.append(low.as_str());
        q.append(" business");
        match &self.city {
            Some(city) => {
                q.append(" in ");
                let city_low = lowercase(city.as_str());
                q.append(city_low.as_str());
                proof {
                    assert(q@ =~= spec_search_query(*self, description@));
                }
            },
            None => {
                proof {
                    assert(q@ =~= spec_search_query(*self, description@));
                }
            },
        }
        q
    }

    /// The prompt for a classification attempt: the bucket list, description
    /// and amount, followed either by the fetched search context or by the
    /// instruction to search.
    pub fn create_classification_prompt(
        &self,
        transaction: &Transaction,
        search_context: Option<&str>,
    ) -> (r: String)
        requires
            transaction.amount_cents > i64::MIN,
        ensures
            r@ == spec_classification_prompt(
                *self,
                *transaction,
                match search_context {
                    Some(s) => Some(s@),
                    None => None,
                },
            ),
    {
        let mut p = String::new();
        p.append("Classify this transaction into one of these buckets: ");
        let joined = join_with(&self.buckets, ", ");
        p.append(joined.as_str());
        p.append("\n\nTransaction: ");
        p.append(transaction.description.as_str());
        p.append("\nAmount: ");
        let amount = fmt_cents(transaction.amount_cents);
        p.append(amount.as_str());
        p.append("\n\n");
        match search_context {
            Some(context) => {
                p.append("Search results for context:\n");
                p.append(context);
                p.append(
                    "\n\nBased on the transaction description and search results, which bucket does this belong to?\nReturn only the bucket name, nothing else:",
                );
            },
            None => {
                p.append(
                    "IMPORTANT: You MUST perform a web search to get current information about what this transaction represents.\nUse the search results to understand the business/merchant and make an informed classification.\nReturn only the bucket name, nothing else:",
                );
            },
        }
        proof {
            assert(p@ =~= spec_classification_prompt(
                *self,
                *transaction,
                match search_context {
                    Some(s) => Some(s@),
                    None => None,
                },
            ));
        }
        p
    }

    /// The prompt for the second provider without search context.
    pub fn create_ollama_only_prompt(&self, transaction: &Transaction) -> (r: String)
        requires
            transaction.amount_cents > i64::MIN,
        ensures
            r@ == spec_ollama_only_prompt(*self, *transaction),
    {
        let mut p = String::new();
        p.append("Classify this transaction: '");
        p.append(transaction.description.as_str());
        p.append("'\nAmount: ");
        let amount = fmt_cents(transaction.amount_cents);
        p.append(amount.as_str());
        p.append("\n\nBuckets: ");
        let joined = join_with(&self.buckets, ", ");
        p.append(joined.as_str());
        p.append(
            "\n\nBased on the description, which bucket does this belong to?\nReturn only the bucket name:",
        );
        proof {
            assert(p@ =~= spec_ollama_only_prompt(*self, *transaction));
        }
        p
    }

    /// Resolves one reply and enforces that the terminal bucket counts as a
    /// failed attempt: the resolved bucket when it is not the terminal one,
    /// an error exactly when it is.
    pub fn process_classification_response(&self, response: &str) -> (r: Result<
        String,
        ClassifyError,
    >)
        ensures
            r matches Ok(b) ==> b@ == best_bucket_match(response@, self.bucket_views()) && b@
                != BUCKET_OTHER@,
            r is Err <==> best_bucket_match(response@, self.bucket_views()) == BUCKET_OTHER@,
            r matches Err(e) ==> e is ReturnedOther,
    {
        let bucket = match self.find_best_bucket_match(response) {
            Ok(b) => b,
            Err(e) => {
                return Err(e);
            },
        };
        let other = String::from_str(BUCKET_OTHER);
        proof {
            reveal_strlit("Other");
        }
        if bucket == other {
            Err(ClassifyError::ReturnedOther)
        } else {
            Ok(bucket)
        }
    }

    /// What one attempt outcome contributes to the chain.
    pub fn classify_step(&self, outcome: &AttemptOutcome) -> (r: Option<String>)
        ensures
            r is Some <==> spec_classify_step(self.bucket_views(), *outcome) is Some,
            r matches Some(b) ==> b@ == spec_classify_step(self.bucket_views(), *outcome)->0,
    {
        match outcome {
            AttemptOutcome::Reply(s) => {
                match self.process_classification_response(s.as_str()) {
                    Ok(b) => Some(b),
                    Err(_) => None,
                }
            },
            AttemptOutcome::Failed => None,
        }
    }

    /// Settles the fallback chain over the attempts' outcomes, in strategy
    /// order: the first outcome that resolves past the terminal bucket gives
    /// the bucket; when every attempt fails or resolves to the terminal
    /// bucket, the terminal bucket is returned - never an error.
    pub fn classify_from_attempts(&self, outcomes: &Vec<AttemptOutcome>) -> (r: String)
        ensures
            r@ == spec_classify(self.bucket_views(), outcomes@),
    {
        let ghost bs = self.bucket_views();
        proof {
            assert(outcomes@.skip(0) =~= outcomes@);
        }
        let mut i: usize = 0;
        while i < outcomes.len()
            invariant
                i <= outcomes.len(),
                bs == self.bucket_views(),
                spec_classify(bs, outcomes@) == spec_classify(bs, outcomes@.skip(i as int)),
            decreases outcomes.len() - i,
        {
            proof {
                assert(outcomes@.skip(i as int).first() == outcomes@[i as int]);
            }
            match self.classify_step(&outcomes[i]) {
                Some(b) => {
                    return b;
                },
                None => {},
            }
            proof {
                assert(outcomes@.skip(i as int).drop_first() =~= outcomes@.skip(i + 1));
            }
            i = i + 1;
        }
        proof {
            assert(outcomes@.skip(outcomes@.len() as int) =~= Seq::<AttemptOutcome>::empty());
        }
        String::from_str(BUCKET_OTHER)
    }
}

/// The search query synthesized for a description: a lowercased what-is
/// question, placed in the configured city when one is set.
pub open spec fn spec_search_query(c: BucketClassifier, desc: Seq<char>) -> Seq<char> {
    match c.city {
        Some(city) => "what is "@ + lower_of(desc) + " business"@ + " in "@ + lower_of(city@),
        None => "what is "@ + lower_of(desc) + " business"@,
    }
}

/// The shared head of the classification prompts: bucket list, description
/// and amount.
pub open spec fn spec_base_prompt(c: BucketClassifier, t: Transaction) -> Seq<char> {
    "Classify this transaction into one of these buckets: "@ + join_seq(c.bucket_views(), ", "@)
        + "\n\nTransaction: "@ + t.description@ + "\nAmount: "@ + cents_str(t.amount_cents as int)
        + "\n\n"@
}

/// The full classification prompt: with fetched search context when one is
/// given, with the instruction to search otherwise.
pub open spec fn spec_classification_prompt(
    c: BucketClassifier,
    t: Transaction,
    ctx: Option<Seq<char>>,
) -> Seq<char> {
    match ctx {
        Some(context) => spec_base_prompt(c, t) + "Search results for context:\n"@ + context
            + "\n\nBased on the transaction description and search results, which bucket does this belong to?\nReturn only the bucket name, nothing else:"@,
        None => spec_base_prompt(c, t)
            + "IMPORTANT: You MUST perform a web search to get current information about what this transaction represents.\nUse the search results to understand the business/merchant and make an informed classification.\nReturn only the bucket name, nothing else:"@,
    }
}

/// The prompt for the second provider without search context.
pub open spec fn spec_ollama_only_prompt(c: BucketClassifier, t: Transaction) -> Seq<char> {
    "Classify this transaction: '"@ + t.description@ + "'\nAmount: "@ + cents_str(
        t.amount_cents as int,
    ) + "\n\nBuckets: "@ + join_seq(c.bucket_views(), ", "@)
        + "\n\nBased on the description, which bucket does this belong to?\nReturn only the bucket name:"@
}

} // verus!
