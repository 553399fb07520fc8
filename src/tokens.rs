//! Token counting and the token-budget trimmer.

use vstd::prelude::*;
use crate::model::{MessageInterface, ModelOptions, Role};

verus! {

/// The tokenizer keeps its running count in a 32-bit signed integer, and a
/// token covers at least one byte: messages handed to it hold at most this
/// many characters in all, counting one more for each message.
pub const MAX_COUNTED_CHARS: usize = 0x400_0000;

/// What `tiktoken_rs::num_tokens_from_messages` returns for a model name and
/// a list of (role, content) pairs: the token count, or `None` where it fails.
pub uninterp spec fn chat_tokens_of(model: Seq<char>, msgs: Seq<(Seq<char>, Seq<char>)>) -> Option<nat>;

/// The sum of `f` over the messages of `s`.
pub open spec fn total(s: Seq<MessageInterface>, f: spec_fn(MessageInterface) -> nat) -> nat
    decreases s.len(),
{
    if s.len() == 0 {
        0
    } else {
        f(s[0]) + total(s.drop_first(), f)
    }
}

/// The size of a message as the tokenizer's limit counts it.
pub open spec fn char_weight() -> spec_fn(MessageInterface) -> nat {
    |m: MessageInterface| m.content@.len() + 1
}

/// The messages are small enough to be handed to the tokenizer.
pub open spec fn within_count_limit(s: Seq<MessageInterface>) -> bool {
    total(s, char_weight()) <= MAX_COUNTED_CHARS
}

/// The (role, content) pairs that the tokenizer is given.
pub open spec fn role_content_pairs(s: Seq<MessageInterface>) -> Seq<(Seq<char>, Seq<char>)> {
    s.map_values(|m: MessageInterface| (m.role.spec_name(), m.content@))
}

/// Relies on `tiktoken_rs::num_tokens_from_messages`: the number of tokens
/// that the messages take for the model, or an error where no chat tokenizer
/// is known for it. (Its regex matching could fail only past its
/// backtracking limit.)
#[verifier::external_body]
fn num_tokens_from_messages(model: &str, messages: &[MessageInterface]) -> (r: Option<usize>)
    requires
        within_count_limit(messages@),
    ensures
        chat_tokens_of(model@, role_content_pairs(messages@)) == match r {
            Some(n) => Some(n as nat),
            None => None::<nat>,
        },
{
    let chat: Vec<tiktoken_rs::ChatCompletionRequestMessage> = messages
        .iter()
        .map(|m| tiktoken_rs::ChatCompletionRequestMessage {
            role: m.role.name().to_string(),
            content: Some(m.content.clone()),
            name: None,
            function_call: None,
        })
        .collect();
    tiktoken_rs::num_tokens_from_messages(model, &chat).ok()
}

/// The number of tokens that `msgs` take for `model`: zero for no messages;
/// where the model has no known tokenizer, the default model's is used.
pub open spec fn spec_count_tokens(msgs: Seq<MessageInterface>, model: ModelOptions) -> nat {
    if msgs.len() == 0 {
        0
    } else {
        match chat_tokens_of(model.spec_name(), role_content_pairs(msgs)) {
            Some(n) => n,
            None => match chat_tokens_of(ModelOptions::Gpt35Turbo.spec_name(), role_content_pairs(msgs)) {
                Some(n) => n,
                None => 0,
            },
        }
    }
}

/// Whether `messages` are small enough to be handed to the tokenizer.
pub fn fits_count_limit(messages: &[MessageInterface]) -> (r: bool)
    ensures
        r == within_count_limit(messages@),
{
    let ghost m = messages@;
    let ghost f = char_weight();
    let mut acc: usize = 0;
    let mut k: usize = 0;
    assert(m.subrange(0, 0) =~= Seq::<MessageInterface>::empty());
    while k < messages.len()
        invariant
            k <= messages@.len(),
            m == messages@,
            f == char_weight(),
            acc == total(m.subrange(0, k as int), f),
            acc <= MAX_COUNTED_CHARS,
        decreases messages@.len() - k,
    {
        let w = messages[k].content.as_str().unicode_len();
        proof {
            assert(m.subrange(0, k + 1) =~= m.subrange(0, k as int) + seq![m[k as int]]);
            lemma_total_concat(m.subrange(0, k as int), seq![m[k as int]], f);
            lemma_total_one(m[k as int], f);
            assert(m =~= m.subrange(0, k + 1) + m.subrange(k + 1, m.len() as int));
            lemma_total_concat(m.subrange(0, k + 1), m.subrange(k + 1, m.len() as int), f);
        }
        if w >= MAX_COUNTED_CHARS - acc {
            return false;
        }
        acc = acc + w + 1;
        k += 1;
    }
    assert(m.subrange(0, k as int) =~= m);
    true
}

/// The token cost of a single message.
pub open spec fn message_cost(model: ModelOptions) -> spec_fn(MessageInterface) -> nat {
    |m: MessageInterface| spec_count_tokens(seq![m], model)
}

/// The count to use, given the tokenizer's answer for the model and, where
/// that failed, its answer for the default model: the first that succeeded,
/// or zero.
pub fn resolve_token_count(primary: Option<usize>, fallback: Option<usize>) -> (r: usize)
    ensures
        r == match primary {
            Some(n) => n,
            None => match fallback {
                Some(n) => n,
                None => 0,
            },
        },
{
    match primary {
        Some(n) => n,
        None => match fallback {
            Some(n) => n,
            None => 0,
        },
    }
}

/// Counts the tokens that `messages` take for `model`.
pub fn count_tokens(messages: &[MessageInterface], model: &ModelOptions) -> (r: usize)
    requires
        within_count_limit(messages@),
    ensures
        r == spec_count_tokens(messages@, *model),
{
    if messages.len() == 0 {
        return 0;
    }
    let primary = num_tokens_from_messages(model.name(), messages);
    let fallback = if primary.is_none() {
        num_tokens_from_messages(ModelOptions::Gpt35Turbo.name(), messages)
    } else {
        None
    };
    resolve_token_count(primary, fallback)
}

/// The sum of a list of costs.
pub open spec fn cost_sum(c: Seq<nat>) -> nat
    decreases c.len(),
{
    if c.len() == 0 {
        0
    } else {
        c[0] + cost_sum(c.drop_first())
    }
}

/// The costs of `m` under the weight `f`, message by message.
pub open spec fn costs_by(m: Seq<MessageInterface>, f: spec_fn(MessageInterface) -> nat) -> Seq<nat> {
    m.map_values(|x: MessageInterface| f(x))
}

/// The token cost of each message of `m`, counted on its own.
pub open spec fn message_costs(m: Seq<MessageInterface>, model: ModelOptions) -> Seq<nat> {
    costs_by(m, message_cost(model))
}

/// Costs held in machine integers, as natural numbers.
pub open spec fn nat_costs(c: Seq<usize>) -> Seq<nat> {
    c.map_values(|x: usize| x as nat)
}

/// Where the walk back from index `i` stops: messages `1..i` are taken from
/// the end, one by one, while their costs `c` fit in `budget`; the result is
/// the index of the first message taken (`i` if none is).
pub open spec fn keep_start(c: Seq<nat>, i: int, budget: int) -> int
    decreases i,
{
    if i <= 1 {
        1
    } else if c[i - 1] > budget {
        i
    } else {
        keep_start(c, i - 1, budget - c[i - 1])
    }
}

/// The first message is a system message whose cost is under the limit.
pub open spec fn retains_system(m: Seq<MessageInterface>, c: Seq<nat>, limit: nat) -> bool {
    m[0].role == Role::System && c[0] < limit
}

/// Where the kept run at the end of `m[1..]` starts: the longest run whose
/// costs fit in what the limit leaves after a retained system message.
pub open spec fn kept_start(m: Seq<MessageInterface>, c: Seq<nat>, limit: nat) -> int {
    let base: int = if retains_system(m, c, limit) { c[0] as int } else { 0 };
    keep_start(c, m.len() as int, limit - base)
}

/// The trimmed history, where message `i` costs `c[i]`: the kept run; a
/// retained system message goes in at the second-to-last position (the
/// front when fewer than two are kept); a first message that is not a
/// system message is put in front if it still fits.
pub open spec fn spec_trim_with_costs(m: Seq<MessageInterface>, c: Seq<nat>, limit: nat) -> Seq<MessageInterface> {
    if m.len() == 0 {
        seq![]
    } else {
        let start = kept_start(m, c, limit);
        let kept = m.subrange(start, m.len() as int);
        if retains_system(m, c, limit) {
            kept.insert(if kept.len() >= 2 { kept.len() - 2 } else { 0 }, m[0])
        } else if m[0].role != Role::System && cost_sum(c.subrange(start, m.len() as int)) + c[0] <= limit {
            seq![m[0]] + kept
        } else {
            kept
        }
    }
}

/// The trimmed history under the token costs of `model`.
pub open spec fn spec_trim(m: Seq<MessageInterface>, limit: nat, model: ModelOptions) -> Seq<MessageInterface> {
    spec_trim_with_costs(m, message_costs(m, model), limit)
}

/// The sum over a concatenation is the sum of the sums.
pub proof fn lemma_total_concat(a: Seq<MessageInterface>, b: Seq<MessageInterface>, f: spec_fn(MessageInterface) -> nat)
    ensures
        total(a + b, f) == total(a, f) + total(b, f),
    decreases a.len(),
{
    if a.len() > 0 {
        lemma_total_concat(a.drop_first(), b, f);
        assert((a + b).drop_first() =~= a.drop_first() + b);
    } else {
        assert(a + b =~= b);
    }
}

/// One message weighs its own weight.
pub proof fn lemma_total_one(x: MessageInterface, f: spec_fn(MessageInterface) -> nat)
    ensures
        total(seq![x], f) == f(x),
{
    assert(seq![x].drop_first() =~= Seq::<MessageInterface>::empty());
    assert(total(Seq::<MessageInterface>::empty(), f) == 0);
}

/// Inserting a message adds its weight to the sum.
pub proof fn lemma_total_insert(s: Seq<MessageInterface>, p: int, x: MessageInterface, f: spec_fn(MessageInterface) -> nat)
    requires
        0 <= p <= s.len(),
    ensures
        total(s.insert(p, x), f) == total(s, f) + f(x),
{
    let a = s.subrange(0, p);
    let b = s.subrange(p, s.len() as int);
    assert(s.insert(p, x) =~= a + (seq![x] + b));
    assert(s =~= a + b);
    lemma_total_concat(a, seq![x] + b, f);
    lemma_total_concat(seq![x], b, f);
    lemma_total_concat(a, b, f);
    lemma_total_one(x, f);
}

/// A message of `m` weighs no more than all of `m`.
pub proof fn lemma_total_single(m: Seq<MessageInterface>, i: int, f: spec_fn(MessageInterface) -> nat)
    requires
        0 <= i < m.len(),
    ensures
        total(seq![m[i]], f) <= total(m, f),
{
    let a = m.subrange(0, i);
    let b = m.subrange(i + 1, m.len() as int);
    assert(m =~= a + (seq![m[i]] + b));
    lemma_total_concat(a, seq![m[i]] + b, f);
    lemma_total_concat(seq![m[i]], b, f);
}

/// Summing the weights of the messages is summing their costs.
pub proof fn lemma_total_is_cost_sum(m: Seq<MessageInterface>, f: spec_fn(MessageInterface) -> nat)
    ensures
        total(m, f) == cost_sum(costs_by(m, f)),
    decreases m.len(),
{
    if m.len() > 0 {
        lemma_total_is_cost_sum(m.drop_first(), f);
        assert(costs_by(m, f).drop_first() =~= costs_by(m.drop_first(), f));
    }
}

/// The sum of a list of costs with one more at its end.
pub proof fn lemma_cost_sum_push(c: Seq<nat>, x: nat)
    ensures
        cost_sum(c.push(x)) == cost_sum(c) + x,
    decreases c.len(),
{
    if c.len() > 0 {
        lemma_cost_sum_push(c.drop_first(), x);
        assert(c.push(x).drop_first() =~= c.drop_first().push(x));
    } else {
        assert(c.push(x).drop_first() =~= Seq::<nat>::empty());
        assert(cost_sum(Seq::<nat>::empty()) == 0);
    }
}

/// The walk back stops inside `[1, i]`, and what it takes fits the budget.
pub proof fn lemma_keep_start(c: Seq<nat>, i: int, budget: int)
    requires
        1 <= i <= c.len(),
        budget >= 0,
    ensures
        1 <= keep_start(c, i, budget) <= i,
        cost_sum(c.subrange(keep_start(c, i, budget), i)) <= budget,
    decreases i,
{
    if i <= 1 {
        assert(c.subrange(1, i) =~= Seq::<nat>::empty());
    } else if c[i - 1] > budget {
        assert(c.subrange(i, i) =~= Seq::<nat>::empty());
    } else {
        let b2 = budget - c[i - 1];
        lemma_keep_start(c, i - 1, b2);
        let k = keep_start(c, i - 1, b2);
        assert(c.subrange(k, i) =~= c.subrange(k, i - 1).push(c[i - 1]));
        lemma_cost_sum_push(c.subrange(k, i - 1), c[i - 1]);
    }
}

/// Every message of a list within the tokenizer's limit is within it alone.
pub proof fn lemma_single_within(m: Seq<MessageInterface>, i: int)
    requires
        within_count_limit(m),
        0 <= i < m.len(),
    ensures
        within_count_limit(seq![m[i]]),
{
    lemma_total_single(m, i, char_weight());
}

/// The trimmed history never costs more tokens than the limit, counting
/// each message on its own.
pub proof fn lemma_trim_within_budget(m: Seq<MessageInterface>, limit: nat, model: ModelOptions)
    ensures
        total(spec_trim(m, limit, model), message_cost(model)) <= limit,
{
    let f = message_cost(model);
    let c = message_costs(m, model);
    if m.len() > 0 {
        let base: int = if retains_system(m, c, limit) { c[0] as int } else { 0 };
        lemma_keep_start(c, m.len() as int, limit - base);
        let start = kept_start(m, c, limit);
        let kept = m.subrange(start, m.len() as int);
        lemma_total_is_cost_sum(kept, f);
        assert(costs_by(kept, f) =~= c.subrange(start, m.len() as int));
        if retains_system(m, c, limit) {
            lemma_total_insert(kept, if kept.len() >= 2 { kept.len() - 2 } else { 0 }, m[0], f);
        } else if m[0].role != Role::System && cost_sum(c.subrange(start, m.len() as int)) + c[0] <= limit {
            assert((seq![m[0]] + kept).drop_first() =~= kept);
        }
    }
}

/// Trimming no messages gives no messages.
pub proof fn lemma_trim_empty(limit: nat, model: ModelOptions)
    ensures
        spec_trim(Seq::<MessageInterface>::empty(), limit, model) == Seq::<MessageInterface>::empty(),
{
}

/// A system message that alone reaches the limit is dropped whole, and a
/// following user message that fits is all that remains.
pub proof fn lemma_trim_drops_oversized_system(sys: MessageInterface, user: MessageInterface, limit: nat, model: ModelOptions)
    requires
        sys.role == Role::System,
        message_cost(model)(sys) >= limit,
        message_cost(model)(user) <= limit,
    ensures
        spec_trim(seq![sys, user], limit, model) == seq![user],
{
    let m = seq![sys, user];
    let c = message_costs(m, model);
    assert(c[0] == message_cost(model)(sys) && c[1] == message_cost(model)(user));
    assert(keep_start(c, 1, limit - c[1]) == 1);
    assert(keep_start(c, 2, limit as int) == 1);
    assert(m.subrange(1, 2) =~= seq![user]);
}

/// A system message followed by one more message, both within the limit,
/// are both kept, the system message first.
pub proof fn lemma_trim_keeps_fitting_pair(sys: MessageInterface, other: MessageInterface, limit: nat, model: ModelOptions)
    requires
        sys.role == Role::System,
        message_cost(model)(sys) < limit,
        message_cost(model)(sys) + message_cost(model)(other) <= limit,
    ensures
        spec_trim(seq![sys, other], limit, model) == seq![sys, other],
{
    let m = seq![sys, other];
    let c = message_costs(m, model);
    assert(c[0] == message_cost(model)(sys) && c[1] == message_cost(model)(other));
    let budget = limit - c[0];
    assert(keep_start(c, 1, budget - c[1]) == 1);
    assert(keep_start(c, 2, budget) == 1);
    assert(m.subrange(1, 2) =~= seq![other]);
    assert(seq![other].insert(0, sys) =~= m);
}

/// Trims `messages` to the token budget `limit`, where message `i` costs
/// `costs[i]` (see `spec_trim_with_costs`).
pub fn limit_message_tokens_with_costs(messages: &[MessageInterface], costs: &[usize], limit: usize) -> (r: Vec<MessageInterface>)
    requires
        costs@.len() == messages@.len(),
    ensures
        r@ == spec_trim_with_costs(messages@, nat_costs(costs@), limit as nat),
{
    if messages.len() == 0 {
        return Vec::new();
    }
    let ghost m = messages@;
    let ghost n = messages@.len() as int;
    let ghost c = nat_costs(costs@);
    let is_system_first = messages[0].role == Role::System;
    let first_tokens = costs[0];
    let mut token_count: usize = 0;
    let mut retain_system = false;
    if is_system_first && first_tokens < limit {
        token_count = first_tokens;
        retain_system = true;
    }
    let ghost base = token_count as int;
    assert(retain_system == retains_system(m, c, limit as nat));
    let mut limited: Vec<MessageInterface> = Vec::new();
    let mut i: usize = messages.len();
    assert(c.subrange(n, n) =~= Seq::<nat>::empty());
    while i > 1
        invariant
            1 <= i <= n,
            n == m.len() == costs@.len(),
            m == messages@,
            c == nat_costs(costs@),
            token_count <= limit,
            token_count == base + cost_sum(c.subrange(i as int, n)),
            limited@ == m.subrange(i as int, n),
            keep_start(c, n, limit - base) == keep_start(c, i as int, limit - token_count),
        ensures
            1 <= i <= n,
            token_count == base + cost_sum(c.subrange(i as int, n)),
            limited@ == m.subrange(i as int, n),
            keep_start(c, n, limit - base) == i,
        decreases i,
    {
        let t = costs[i - 1];
        assert(c[i - 1] == t);
        if t > limit - token_count {
            break;
        }
        assert(c.subrange(i - 1, n).drop_first() =~= c.subrange(i as int, n));
        token_count = token_count + t;
        limited.insert(0, messages[i - 1].clone());
        assert(limited@ =~= m.subrange(i - 1, n));
        i = i - 1;
    }
    if retain_system {
        let pos = if limited.len() >= 2 { limited.len() - 2 } else { 0 };
        limited.insert(pos, messages[0].clone());
    } else if !is_system_first {
        if first_tokens <= limit - token_count {
            limited.insert(0, messages[0].clone());
            assert(limited@ =~= seq![m[0]] + m.subrange(i as int, n));
        }
    }
    limited
}

/// The token cost of each message of `messages`, counted on its own.
pub fn message_token_costs(messages: &[MessageInterface], model: &ModelOptions) -> (r: Vec<usize>)
    requires
        within_count_limit(messages@),
    ensures
        r@.len() == messages@.len(),
        nat_costs(r@) == message_costs(messages@, *model),
{
    let mut costs: Vec<usize> = Vec::new();
    let mut k: usize = 0;
    while k < messages.len()
        invariant
            k <= messages@.len(),
            within_count_limit(messages@),
            costs@.len() == k,
            nat_costs(costs@) == message_costs(messages@.subrange(0, k as int), *model),
        decreases messages@.len() - k,
    {
        proof {
            lemma_single_within(messages@, k as int);
        }
        let mut one: Vec<MessageInterface> = Vec::new();
        one.push(messages[k].clone());
        assert(one@ =~= seq![messages@[k as int]]);
        let t = count_tokens(one.as_slice(), model);
        let ghost before = costs@;
        costs.push(t);
        assert(t as nat == message_cost(*model)(messages@[k as int]));
        assert(nat_costs(costs@) =~= nat_costs(before).push(t as nat));
        assert(messages@.subrange(0, k + 1) =~= messages@.subrange(0, k as int).push(messages@[k as int]));
        assert(message_costs(messages@.subrange(0, k + 1), *model)
            =~= message_costs(messages@.subrange(0, k as int), *model).push(message_cost(*model)(messages@[k as int])));
        k += 1;
    }
    assert(messages@.subrange(0, k as int) =~= messages@);
    costs
}

/// Trims `messages` to the token budget `limit` under the token costs of
/// `model` (see `spec_trim`).
pub fn limit_message_tokens(messages: &[MessageInterface], limit: usize, model: &ModelOptions) -> (r: Vec<MessageInterface>)
    requires
        within_count_limit(messages@),
    ensures
        r@ == spec_trim(messages@, limit as nat, *model),
        total(r@, message_cost(*model)) <= limit,
{
    proof {
        lemma_trim_within_budget(messages@, limit as nat, *model);
    }
    let costs = message_token_costs(messages, model);
    limit_message_tokens_with_costs(messages, costs.as_slice(), limit)
}

} // verus!
