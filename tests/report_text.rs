use collatz_pool::collatz::collatz;
use collatz_pool::report::{push_decimal, render_report, sort_results};

#[test]
fn sorts_by_input_then_length() {
    let v: Vec<(u128, u128)> = vec![(5, 5), (2, 1), (9, 19), (2, 0), (3, 7)];
    assert_eq!(sort_results(&v), vec![(2, 0), (2, 1), (3, 7), (5, 5), (9, 19)]);
}

#[test]
fn sorting_keeps_duplicates() {
    let v: Vec<(u128, u128)> = vec![(4, 2), (4, 2), (1, 0)];
    assert_eq!(sort_results(&v), vec![(1, 0), (4, 2), (4, 2)]);
    assert_eq!(sort_results(&Vec::new()), Vec::<(u128, u128)>::new());
}

#[test]
fn decimal_digits() {
    let mut out = Vec::new();
    push_decimal(&mut out, 0);
    out.push(b' ');
    push_decimal(&mut out, 1207);
    out.push(b' ');
    push_decimal(&mut out, u128::MAX);
    assert_eq!(
        String::from_utf8(out).unwrap(),
        "0 1207 340282366920938463463374607431768211455"
    );
}

#[test]
fn renders_lines() {
    let v: Vec<(u128, u128)> = vec![(27, 111), (3, 7)];
    assert_eq!(render_report(&v), b"27, 111\n3, 7\n".to_vec());
    assert!(render_report(&Vec::new()).is_empty());
}

#[test]
fn report_for_bound_ten() {
    let order: [u128; 9] = [7, 2, 10, 5, 3, 9, 4, 8, 6];
    let mut results: Vec<(u128, u128)> = Vec::new();
    for n in order {
        results.push((n, collatz(n, None).unwrap()));
    }
    let text = String::from_utf8(render_report(&sort_results(&results))).unwrap();
    assert_eq!(
        text,
        "2, 1\n3, 7\n4, 2\n5, 5\n6, 8\n7, 16\n8, 3\n9, 19\n10, 6\n"
    );
    assert_eq!(text.lines().count(), 9);
}
