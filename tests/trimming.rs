use chatkit::model::{MessageInterface, ModelOptions, Role};
use chatkit::tokens::{
    count_tokens, fits_count_limit, limit_message_tokens, limit_message_tokens_with_costs, message_token_costs,
    resolve_token_count,
};

fn msg(role: Role, content: &str) -> MessageInterface {
    MessageInterface::new(role, content.to_string())
}

fn cost(m: &MessageInterface, model: &ModelOptions) -> usize {
    count_tokens(&[m.clone()], model)
}

#[test]
fn count_tokens_of_no_messages_is_zero() {
    assert_eq!(count_tokens(&[], &ModelOptions::Gpt4), 0);
}

#[test]
fn count_tokens_of_one_short_message() {
    // 4 per message, "user" and "hi" one token each, 3 to prime the reply.
    assert_eq!(count_tokens(&[msg(Role::User, "hi")], &ModelOptions::Gpt35Turbo), 9);
    // 3 per message for the GPT-4 family.
    assert_eq!(count_tokens(&[msg(Role::User, "hi")], &ModelOptions::Gpt4), 8);
}

#[test]
fn count_tokens_grows_with_content() {
    let short = count_tokens(&[msg(Role::User, "hi")], &ModelOptions::Gpt4o);
    let long = count_tokens(&[msg(Role::User, "hi there, how are you doing today?")], &ModelOptions::Gpt4o);
    assert!(long > short);
}

#[test]
fn trim_of_empty_history_is_empty() {
    assert!(limit_message_tokens(&[], 0, &ModelOptions::Gpt4).is_empty());
    assert!(limit_message_tokens(&[], 100000, &ModelOptions::Gpt35Turbo).is_empty());
}

#[test]
fn trim_keeps_system_and_user_that_fit() {
    let history = vec![msg(Role::System, "s"), msg(Role::User, "hi")];
    let r = limit_message_tokens(&history, 4000, &ModelOptions::Gpt35Turbo);
    assert_eq!(r, history);
}

#[test]
fn trim_drops_oversized_system_message() {
    let long = "lorem ipsum dolor sit amet ".repeat(100);
    let history = vec![msg(Role::System, &long), msg(Role::User, "hi")];
    let r = limit_message_tokens(&history, 50, &ModelOptions::Gpt4);
    assert_eq!(r, vec![msg(Role::User, "hi")]);
}

#[test]
fn trim_puts_system_second_to_last() {
    let history = vec![
        msg(Role::System, "be brief"),
        msg(Role::User, "one"),
        msg(Role::Assistant, "two"),
        msg(Role::User, "three"),
    ];
    let r = limit_message_tokens(&history, 4000, &ModelOptions::Gpt4);
    assert_eq!(
        r,
        vec![
            msg(Role::User, "one"),
            msg(Role::System, "be brief"),
            msg(Role::Assistant, "two"),
            msg(Role::User, "three"),
        ]
    );
}

#[test]
fn trim_keeps_latest_messages_within_budget() {
    let model = ModelOptions::Gpt4;
    let history = vec![
        msg(Role::System, "system"),
        msg(Role::User, "first question with a number of words in it"),
        msg(Role::Assistant, "first answer with a number of words in it"),
        msg(Role::User, "second"),
        msg(Role::Assistant, "third"),
    ];
    let sys = cost(&history[0], &model);
    let limit = sys + cost(&history[3], &model) + cost(&history[4], &model) + 1;
    let r = limit_message_tokens(&history, limit, &model);
    assert_eq!(r, vec![msg(Role::System, "system"), history[3].clone(), history[4].clone()]);
    let spent: usize = r.iter().map(|m| cost(m, &model)).sum();
    assert!(spent <= limit);
}

#[test]
fn trim_never_exceeds_budget() {
    let model = ModelOptions::Gpt35Turbo;
    let history: Vec<MessageInterface> = (0..5)
        .map(|i| msg(if i % 2 == 0 { Role::User } else { Role::Assistant }, &"word ".repeat(i * 3 + 1)))
        .collect();
    let costs: Vec<usize> = history.iter().map(|m| cost(m, &model)).collect();
    for limit in [0usize, 20, 45] {
        let r = limit_message_tokens(&history, limit, &model);
        let spent: usize = r
            .iter()
            .map(|m| costs[history.iter().position(|h| h == m).unwrap()])
            .sum();
        assert!(spent <= limit, "limit {limit} spent {spent}");
    }
}

#[test]
fn trim_prepends_first_non_system_message_when_it_fits() {
    let history = vec![msg(Role::User, "a"), msg(Role::Assistant, "b")];
    let r = limit_message_tokens(&history, 1000, &ModelOptions::Gpt4);
    assert_eq!(r, history);
    let model = ModelOptions::Gpt4;
    let only_last = cost(&history[1], &model);
    let r = limit_message_tokens(&history, only_last, &model);
    assert_eq!(r, vec![msg(Role::Assistant, "b")]);
}

#[test]
fn trim_with_zero_limit_keeps_nothing() {
    let history = vec![msg(Role::System, "s"), msg(Role::User, "hi")];
    assert!(limit_message_tokens(&history, 0, &ModelOptions::Gpt4).is_empty());
}

#[test]
fn count_limit_check() {
    assert!(fits_count_limit(&[msg(Role::User, "hi")]));
    assert!(fits_count_limit(&[]));
}

#[test]
fn trim_with_given_costs_retains_system() {
    let h = vec![msg(Role::System, "S"), msg(Role::User, "u1"), msg(Role::Assistant, "a1"), msg(Role::User, "u2")];
    let costs = [5usize, 3, 4, 2];
    assert_eq!(limit_message_tokens_with_costs(&h, &costs, 10), vec![h[0].clone(), h[3].clone()]);
    assert_eq!(limit_message_tokens_with_costs(&h, &costs, 5), vec![h[3].clone()]);
    assert_eq!(limit_message_tokens_with_costs(&h, &costs, 1), Vec::<MessageInterface>::new());
    assert_eq!(
        limit_message_tokens_with_costs(&h, &[1, 1, 1, 1], 100),
        vec![h[1].clone(), h[0].clone(), h[2].clone(), h[3].clone()]
    );
}

#[test]
fn trim_with_given_costs_prepends_first() {
    let h = vec![msg(Role::User, "u0"), msg(Role::Assistant, "a1"), msg(Role::User, "u2")];
    let costs = [3usize, 4, 2];
    assert_eq!(limit_message_tokens_with_costs(&h, &costs, 9), h);
    assert_eq!(limit_message_tokens_with_costs(&h, &costs, 8), vec![h[1].clone(), h[2].clone()]);
    assert_eq!(limit_message_tokens_with_costs(&h, &costs, 2), vec![h[2].clone()]);
}

#[test]
fn costs_are_counted_one_by_one() {
    let h = vec![msg(Role::User, "hi"), msg(Role::User, "hi")];
    assert_eq!(message_token_costs(&h, &ModelOptions::Gpt35Turbo), vec![9, 9]);
}

#[test]
fn token_count_falls_back() {
    assert_eq!(resolve_token_count(Some(7), Some(9)), 7);
    assert_eq!(resolve_token_count(None, Some(9)), 9);
    assert_eq!(resolve_token_count(None, None), 0);
}
