//! Token counts of the model calls made while working on a task.

use vstd::prelude::*;

verus! {

/// Tokens read and written, including prompt-cache traffic.
#[derive(Debug, Clone, PartialEq, Eq, Structural)]
pub struct TokenUsage {
    pub input_tokens: u64,
    pub output_tokens: u64,
    pub cache_creation_input_tokens: u64,
    pub cache_read_input_tokens: u64,
}

/// Whether the field-wise sum of `a` and `b` fits in 64 bits.
pub open spec fn sum_fits(a: TokenUsage, b: TokenUsage) -> bool {
    a.input_tokens + b.input_tokens <= u64::MAX && a.output_tokens + b.output_tokens <= u64::MAX
        && a.cache_creation_input_tokens + b.cache_creation_input_tokens <= u64::MAX
        && a.cache_read_input_tokens + b.cache_read_input_tokens <= u64::MAX
}

/// The field-wise sum of two usages.
pub open spec fn sum(a: TokenUsage, b: TokenUsage) -> TokenUsage {
    TokenUsage {
        input_tokens: (a.input_tokens + b.input_tokens) as u64,
        output_tokens: (a.output_tokens + b.output_tokens) as u64,
        cache_creation_input_tokens: (a.cache_creation_input_tokens
            + b.cache_creation_input_tokens) as u64,
        cache_read_input_tokens: (a.cache_read_input_tokens + b.cache_read_input_tokens) as u64,
    }
}

/// No tokens at all.
pub open spec fn zero_usage() -> TokenUsage {
    TokenUsage {
        input_tokens: 0,
        output_tokens: 0,
        cache_creation_input_tokens: 0,
        cache_read_input_tokens: 0,
    }
}

impl TokenUsage {
    /// No tokens at all.
    pub fn zero() -> (r: TokenUsage)
        ensures
            r == zero_usage(),
    {
        TokenUsage {
            input_tokens: 0,
            output_tokens: 0,
            cache_creation_input_tokens: 0,
            cache_read_input_tokens: 0,
        }
    }

    /// Input plus output tokens (cache traffic is not counted).
    pub fn total(&self) -> (r: u64)
        requires
            self.input_tokens + self.output_tokens <= u64::MAX,
        ensures
            r == self.input_tokens + self.output_tokens,
    {
        self.input_tokens + self.output_tokens
    }
}

impl std::ops::Add for TokenUsage {
    type Output = TokenUsage;

    /// The field-wise sum of two usages.
    fn add(self, rhs: TokenUsage) -> (r: TokenUsage) {
        TokenUsage {
            input_tokens: self.input_tokens + rhs.input_tokens,
            output_tokens: self.output_tokens + rhs.output_tokens,
            cache_creation_input_tokens: self.cache_creation_input_tokens
                + rhs.cache_creation_input_tokens,
            cache_read_input_tokens: self.cache_read_input_tokens + rhs.cache_read_input_tokens,
        }
    }
}

impl vstd::std_specs::ops::AddSpecImpl for TokenUsage {
    open spec fn obeys_add_spec() -> bool {
        true
    }

    open spec fn add_req(self, rhs: TokenUsage) -> bool {
        sum_fits(self, rhs)
    }

    open spec fn add_spec(self, rhs: TokenUsage) -> TokenUsage {
        sum(self, rhs)
    }
}

/// Adding no tokens leaves a usage unchanged.
pub proof fn lemma_add_zero_identity(u: TokenUsage)
    ensures
        sum_fits(u, zero_usage()),
        sum(u, zero_usage()) == u,
{
}

/// The sum of two usages does not depend on their order.
pub proof fn lemma_add_commutes(a: TokenUsage, b: TokenUsage)
    ensures
        sum_fits(a, b) == sum_fits(b, a),
        sum(a, b) == sum(b, a),
{
}

/// Summing three usages gives the same result however the sums are grouped.
pub proof fn lemma_add_associates(a: TokenUsage, b: TokenUsage, c: TokenUsage)
    requires
        sum_fits(a, b),
        sum_fits(sum(a, b), c),
    ensures
        sum_fits(b, c),
        sum_fits(a, sum(b, c)),
        sum(sum(a, b), c) == sum(a, sum(b, c)),
{
}

} // verus!
