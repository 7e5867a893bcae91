use seogi::domain::token_usage::TokenUsage;

#[test]
fn zero_returns_all_fields_zero() {
    let usage = TokenUsage::zero();

    assert_eq!(
        usage,
        TokenUsage {
            input_tokens: 0,
            output_tokens: 0,
            cache_creation_input_tokens: 0,
            cache_read_input_tokens: 0,
        }
    );
}

#[test]
fn total_sums_input_and_output() {
    let usage = TokenUsage {
        input_tokens: 100,
        output_tokens: 50,
        cache_creation_input_tokens: 10,
        cache_read_input_tokens: 20,
    };

    assert_eq!(usage.total(), 150);
}

#[test]
fn add_sums_all_fields() {
    let a = TokenUsage {
        input_tokens: 100,
        output_tokens: 50,
        cache_creation_input_tokens: 10,
        cache_read_input_tokens: 20,
    };
    let b = TokenUsage {
        input_tokens: 200,
        output_tokens: 100,
        cache_creation_input_tokens: 30,
        cache_read_input_tokens: 40,
    };

    let result = a + b;

    assert_eq!(
        result,
        TokenUsage {
            input_tokens: 300,
            output_tokens: 150,
            cache_creation_input_tokens: 40,
            cache_read_input_tokens: 60,
        }
    );
}

#[test]
fn add_with_zero_is_identity() {
    let usage = TokenUsage {
        input_tokens: 100,
        output_tokens: 50,
        cache_creation_input_tokens: 10,
        cache_read_input_tokens: 20,
    };

    let result = usage.clone() + TokenUsage::zero();

    assert_eq!(result, usage);
}

// Own cases.

fn usage(a: u64, b: u64, c: u64, d: u64) -> TokenUsage {
    TokenUsage {
        input_tokens: a,
        output_tokens: b,
        cache_creation_input_tokens: c,
        cache_read_input_tokens: d,
    }
}

#[test]
fn add_commutes_and_associates() {
    let x = usage(1, 2, 3, 4);
    let y = usage(10, 20, 30, 40);
    let z = usage(100, 200, 300, 400);
    assert_eq!(x.clone() + y.clone(), y.clone() + x.clone());
    assert_eq!(
        (x.clone() + y.clone()) + z.clone(),
        x + (y + z)
    );
}

#[test]
fn zero_is_left_identity() {
    let x = usage(7, 8, 9, 10);
    assert_eq!(TokenUsage::zero() + x.clone(), x);
}
