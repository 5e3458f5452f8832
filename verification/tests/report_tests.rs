use ferris_elf::report::{format_nanos, render, report, sort_samples, summarize, Stats};

#[test]
fn sort_samples_orders_ascending() {
    let v: Vec<u128> = vec![5, 3, 3, 9, 0];
    let sorted = sort_samples(&v);
    assert_eq!(sorted, vec![0, 3, 3, 5, 9]);
}

#[test]
fn sort_samples_keeps_an_already_sorted_vector() {
    let v: Vec<u128> = vec![1, 2, 3];
    assert_eq!(sort_samples(&v), vec![1, 2, 3]);
}

#[test]
fn summarize_reads_median_at_index_50() {
    let mut v: Vec<u128> = Vec::new();
    for i in 0..100u128 {
        v.push(i);
    }
    let st = summarize(&v);
    assert_eq!(st.median, 50);
    assert_eq!(st.average, 49); // 4950 / 100
    assert_eq!(st.min, 0);
    assert_eq!(st.max, 99);
    assert!(st.min <= st.median && st.median <= st.max);
    assert!(st.min <= st.average && st.average <= st.max);
}

#[test]
fn summarize_of_a_constant_distribution() {
    let v: Vec<u128> = vec![7; 100];
    let st = summarize(&v);
    assert_eq!(st.median, 7);
    assert_eq!(st.average, 7);
    assert_eq!(st.min, 7);
    assert_eq!(st.max, 7);
}

#[test]
fn format_nanos_writes_decimal_digits() {
    assert_eq!(format_nanos(0), "0");
    assert_eq!(format_nanos(7), "7");
    assert_eq!(format_nanos(10), "10");
    assert_eq!(format_nanos(123456789), "123456789");
    assert_eq!(
        format_nanos(18_446_744_073_709_551_615_999_999_999),
        "18446744073709551615999999999"
    );
}

#[test]
fn render_writes_the_five_line_protocol() {
    let st = Stats { median: 50, average: 49, min: 0, max: 99 };
    let text = render(&"42".to_string(), &st);
    let expected = "FERRIS_ELF_ANSWER 42\nFERRIS_ELF_MEDIAN 50\nFERRIS_ELF_AVERAGE 49\nFERRIS_ELF_MIN 0\nFERRIS_ELF_MAX 99\n";
    assert_eq!(text, expected);
}

#[test]
fn report_sorts_before_it_renders() {
    let mut v: Vec<u128> = Vec::new();
    for i in 0..100u128 {
        v.push(99 - i);
    }
    let text = report(&"answer".to_string(), &v);
    let expected = "FERRIS_ELF_ANSWER answer\nFERRIS_ELF_MEDIAN 50\nFERRIS_ELF_AVERAGE 49\nFERRIS_ELF_MIN 0\nFERRIS_ELF_MAX 99\n";
    assert_eq!(text, expected);
}
