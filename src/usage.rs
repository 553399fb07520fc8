//! Cumulative token usage per model, and its price.

use vstd::prelude::*;
use crate::model::{ModelOptions, TokenUsage, MODEL_COUNT};

verus! {

/// Two models never share a position.
pub proof fn lemma_index_injective(a: ModelOptions, b: ModelOptions)
    ensures
        a.spec_index() == b.spec_index() ==> a == b,
        0 <= a.spec_index() < MODEL_COUNT,
{
}

/// The model at position `k` of the list of models.
pub open spec fn spec_model_at(k: int) -> ModelOptions {
    if k == 0 { ModelOptions::Gpt4o }
    else if k == 1 { ModelOptions::Gpt4o20240513 }
    else if k == 2 { ModelOptions::Gpt4 }
    else if k == 3 { ModelOptions::Gpt432k }
    else if k == 4 { ModelOptions::Gpt41106Preview }
    else if k == 5 { ModelOptions::Gpt40125Preview }
    else if k == 6 { ModelOptions::Gpt4Turbo }
    else if k == 7 { ModelOptions::Gpt4Turbo20240409 }
    else if k == 8 { ModelOptions::Gpt35Turbo }
    else if k == 9 { ModelOptions::Gpt35Turbo16k }
    else if k == 10 { ModelOptions::Gpt35Turbo1106 }
    else { ModelOptions::Gpt35Turbo0125 }
}

/// The model at position `k` of the list of models.
pub fn model_at(k: usize) -> (r: ModelOptions)
    requires
        k < MODEL_COUNT,
    ensures
        r == spec_model_at(k as int),
        r.spec_index() == k,
{
    if k == 0 { ModelOptions::Gpt4o }
    else if k == 1 { ModelOptions::Gpt4o20240513 }
    else if k == 2 { ModelOptions::Gpt4 }
    else if k == 3 { ModelOptions::Gpt432k }
    else if k == 4 { ModelOptions::Gpt41106Preview }
    else if k == 5 { ModelOptions::Gpt40125Preview }
    else if k == 6 { ModelOptions::Gpt4Turbo }
    else if k == 7 { ModelOptions::Gpt4Turbo20240409 }
    else if k == 8 { ModelOptions::Gpt35Turbo }
    else if k == 9 { ModelOptions::Gpt35Turbo16k }
    else if k == 10 { ModelOptions::Gpt35Turbo1106 }
    else { ModelOptions::Gpt35Turbo0125 }
}

/// The cost of the usage recorded for the first `k` models of the list.
pub open spec fn spec_cost_upto(t: Map<ModelOptions, TokenUsage>, k: int) -> nat
    decreases k,
{
    if k <= 0 {
        0
    } else {
        spec_cost_upto(t, k - 1) + if t.contains_key(spec_model_at(k - 1)) {
            spec_cost(spec_model_at(k - 1), t[spec_model_at(k - 1)])
        } else {
            0
        }
    }
}

/// Prompt and completion price of a model, per 1000 tokens, in units of
/// 1/10000 USD; `None` for a model without a listed price.
pub open spec fn spec_price(m: ModelOptions) -> Option<(nat, nat)> {
    match m {
        ModelOptions::Gpt35Turbo => Some((15, 20)),
        ModelOptions::Gpt35Turbo16k => Some((30, 40)),
        ModelOptions::Gpt35Turbo1106 => Some((10, 15)),
        ModelOptions::Gpt35Turbo0125 => Some((5, 15)),
        ModelOptions::Gpt4 => Some((300, 600)),
        ModelOptions::Gpt4o => Some((50, 150)),
        ModelOptions::Gpt4o20240513 => Some((50, 150)),
        _ => None,
    }
}

/// The cost of `usage` with model `m`, in units of 1/10000000 USD: zero for
/// a model without a listed price.
pub open spec fn spec_cost(m: ModelOptions, usage: TokenUsage) -> nat {
    match spec_price(m) {
        Some((p, c)) => (usage.prompt_tokens * p + usage.completion_tokens * c) as nat,
        None => 0,
    }
}

/// Prompt and completion price of a model (see `spec_price`).
pub fn price(m: &ModelOptions) -> (r: Option<(u64, u64)>)
    ensures
        match r {
            Some((p, c)) => spec_price(*m) == Some((p as nat, c as nat)),
            None => spec_price(*m) is None,
        },
{
    match m {
        ModelOptions::Gpt35Turbo => Some((15, 20)),
        ModelOptions::Gpt35Turbo16k => Some((30, 40)),
        ModelOptions::Gpt35Turbo1106 => Some((10, 15)),
        ModelOptions::Gpt35Turbo0125 => Some((5, 15)),
        ModelOptions::Gpt4 => Some((300, 600)),
        ModelOptions::Gpt4o => Some((50, 150)),
        ModelOptions::Gpt4o20240513 => Some((50, 150)),
        _ => None,
    }
}

/// The cost of `usage` with model `m`, in units of 1/10000000 USD.
pub fn cost(m: &ModelOptions, usage: &TokenUsage) -> (r: u128)
    ensures
        r == spec_cost(*m, *usage),
{
    match price(m) {
        Some((p, c)) => {
            assert(usage.prompt_tokens * p <= u64::MAX * 600) by (nonlinear_arith)
                requires usage.prompt_tokens <= u64::MAX, p <= 600;
            assert(usage.completion_tokens * c <= u64::MAX * 600) by (nonlinear_arith)
                requires usage.completion_tokens <= u64::MAX, c <= 600;
            (usage.prompt_tokens as u128) * (p as u128) + (usage.completion_tokens as u128) * (c as u128)
        },
        None => 0,
    }
}

/// Tokens spent per model. Entries only grow, until the table is reset.
pub struct UsageTable {
    slots: Vec<Option<TokenUsage>>,
}

impl View for UsageTable {
    type V = Map<ModelOptions, TokenUsage>;

    closed spec fn view(&self) -> Map<ModelOptions, TokenUsage> {
        Map::new(
            |m: ModelOptions| self.slots@[m.spec_index()] is Some,
            |m: ModelOptions| self.slots@[m.spec_index()]->0,
        )
    }
}

impl UsageTable {
    /// The table has one slot per model.
    pub closed spec fn wf(&self) -> bool {
        self.slots@.len() == MODEL_COUNT
    }

    /// An empty table.
    pub fn new() -> (r: UsageTable)
        ensures
            r.wf(),
            r@ == Map::<ModelOptions, TokenUsage>::empty(),
    {
        let mut slots: Vec<Option<TokenUsage>> = Vec::new();
        let mut i: usize = 0;
        while i < MODEL_COUNT
            invariant
                i <= MODEL_COUNT,
                slots@.len() == i,
                forall|k: int| 0 <= k < i ==> slots@[k] is None,
            decreases MODEL_COUNT - i,
        {
            slots.push(None);
            i += 1;
        }
        let r = UsageTable { slots };
        assert(r@ =~= Map::<ModelOptions, TokenUsage>::empty());
        r
    }

    /// The usage recorded for `model`, if any.
    pub fn get(&self, model: &ModelOptions) -> (r: Option<TokenUsage>)
        requires
            self.wf(),
        ensures
            r == (if self@.contains_key(*model) { Some(self@[*model]) } else { None }),
    {
        self.slots[model.index()]
    }

    /// Adds `prompt` and `completion` tokens to the totals of `model`,
    /// starting from zero for a model not yet in the table.
    pub fn add(&mut self, model: &ModelOptions, prompt: u64, completion: u64)
        requires
            old(self).wf(),
            old(self)@.contains_key(*model) ==> old(self)@[*model].prompt_tokens + prompt <= u64::MAX,
            old(self)@.contains_key(*model) ==> old(self)@[*model].completion_tokens + completion <= u64::MAX,
        ensures
            final(self).wf(),
            final(self)@ == old(self)@.insert(
                *model,
                if old(self)@.contains_key(*model) {
                    TokenUsage {
                        prompt_tokens: (old(self)@[*model].prompt_tokens + prompt) as u64,
                        completion_tokens: (old(self)@[*model].completion_tokens + completion) as u64,
                    }
                } else {
                    TokenUsage { prompt_tokens: prompt, completion_tokens: completion }
                },
            ),
    {
        let i = model.index();
        let current = match self.slots[i] {
            Some(u) => u,
            None => TokenUsage { prompt_tokens: 0, completion_tokens: 0 },
        };
        let updated = TokenUsage {
            prompt_tokens: current.prompt_tokens + prompt,
            completion_tokens: current.completion_tokens + completion,
        };
        self.slots.set(i, Some(updated));
        proof {
            assert forall|m: ModelOptions| #[trigger] self@.contains_key(m) == old(self)@.insert(*model, updated).contains_key(m) by {
                lemma_index_injective(m, *model);
            }
            assert forall|m: ModelOptions| self@.contains_key(m) implies #[trigger] self@[m] == old(self)@.insert(*model, updated)[m] by {
                lemma_index_injective(m, *model);
            }
            assert(self@ =~= old(self)@.insert(*model, updated));
        }
    }

    /// The cost of all recorded usage, in units of 1/10000000 USD.
    pub fn total_cost(&self) -> (r: u128)
        requires
            self.wf(),
        ensures
            r == spec_cost_upto(self@, MODEL_COUNT as int),
    {
        let mut sum: u128 = 0;
        let mut k: usize = 0;
        while k < MODEL_COUNT
            invariant
                k <= MODEL_COUNT,
                self.wf(),
                sum == spec_cost_upto(self@, k as int),
                sum <= k * 0x10000_0000_0000_0000_0000,
            decreases MODEL_COUNT - k,
        {
            let m = model_at(k);
            match self.get(&m) {
                Some(u) => {
                    let c = cost(&m, &u);
                    assert(c <= 0x10000_0000_0000_0000_0000) by {
                        assert(u.prompt_tokens * 600 <= u64::MAX * 600) by (nonlinear_arith)
                            requires u.prompt_tokens <= u64::MAX;
                        assert(u.completion_tokens * 600 <= u64::MAX * 600) by (nonlinear_arith)
                            requires u.completion_tokens <= u64::MAX;
                        match spec_price(m) {
                            Some((p, q)) => {
                                assert(u.prompt_tokens * p <= u.prompt_tokens * 600) by (nonlinear_arith)
                                    requires p <= 600;
                                assert(u.completion_tokens * q <= u.completion_tokens * 600) by (nonlinear_arith)
                                    requires q <= 600;
                            },
                            None => {},
                        }
                    }
                    sum = sum + c;
                },
                None => {},
            }
            k += 1;
        }
        sum
    }

    /// Forgets all recorded usage.
    pub fn reset(&mut self)
        requires
            old(self).wf(),
        ensures
            final(self).wf(),
            final(self)@ == Map::<ModelOptions, TokenUsage>::empty(),
    {
        *self = UsageTable::new();
    }
}

} // verus!
