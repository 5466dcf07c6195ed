use sql_array::separated;
use sql_array::text::make_placeholders;

#[test]
fn zero_groups_give_empty_text() {
    for k in 1..6usize {
        assert_eq!(make_placeholders(0, k), "");
    }
    assert_eq!(separated("(?, ?)", 0), "");
    assert_eq!(separated("?", 0), "");
}

#[test]
fn numbered_tuples_are_sequential() {
    assert_eq!(make_placeholders(3, 2), "($1, $2), ($3, $4), ($5, $6)");
}

#[test]
fn single_parameter_groups_stay_bare() {
    assert_eq!(make_placeholders(1, 1), "$1");
    assert_eq!(make_placeholders(4, 1), "$1, $2, $3, $4");
}

#[test]
fn numbering_does_not_reset_across_groups() {
    assert_eq!(make_placeholders(2, 3), "($1, $2, $3), ($4, $5, $6)");
    assert_eq!(make_placeholders(5, 2), "($1, $2), ($3, $4), ($5, $6), ($7, $8), ($9, $10)");
}

#[test]
fn multi_digit_indices_render_in_decimal() {
    let text = make_placeholders(6, 2);
    assert_eq!(text, "($1, $2), ($3, $4), ($5, $6), ($7, $8), ($9, $10), ($11, $12)");
}

#[test]
fn separated_repeats_with_comma_space() {
    assert_eq!(separated("?", 1), "?");
    assert_eq!(separated("?", 3), "?, ?, ?");
    assert_eq!(separated("(?, ?)", 2), "(?, ?), (?, ?)");
}
