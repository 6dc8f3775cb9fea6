use counter_demo::Counter;
use counter_demo::ResetPolicy;

#[test]
fn no_reset_reaches_threshold_mid_buffer() {
    let c = Counter::new('a', 3, ResetPolicy::NoReset);
    assert_eq!(c.has_count("aabaa"), true);
}

#[test]
fn space_reset_splits_the_run() {
    let c = Counter::new('a', 3, ResetPolicy::ResetOnSpace);
    assert_eq!(c.has_count("aa aa"), false);
}

#[test]
fn empty_buffer_is_false() {
    let c = Counter::new('x', 1, ResetPolicy::ResetOnNewline);
    assert_eq!(c.has_count(""), false);
}

#[test]
fn threshold_zero_nonempty_is_true() {
    let c = Counter::new('x', 0, ResetPolicy::NoReset);
    assert_eq!(c.has_count("z"), true);
}

#[test]
fn threshold_zero_empty_is_false() {
    let c = Counter::new('x', 0, ResetPolicy::NoReset);
    assert_eq!(c.has_count(""), false);
    let d = Counter::new('q', 0, ResetPolicy::ResetOnSpace);
    assert_eq!(d.has_count(""), false);
}

#[test]
fn check_happens_before_each_character() {
    // The count is checked before a character is processed, never after the
    // last one: a threshold first reached by the final character is not seen.
    let c = Counter::new('a', 1, ResetPolicy::NoReset);
    assert_eq!(c.has_count("a"), false);
    assert_eq!(c.has_count("ab"), true);
    let d = Counter::new('a', 3, ResetPolicy::NoReset);
    assert_eq!(d.has_count("aaba"), false);
}

#[test]
fn no_reset_counts_plain_occurrences() {
    let c = Counter::new('a', 2, ResetPolicy::NoReset);
    assert_eq!(c.has_count("xa y az"), true);
    assert_eq!(c.has_count("xa y z"), false);
}

#[test]
fn no_reset_ignores_newlines_and_spaces() {
    let c = Counter::new('a', 2, ResetPolicy::NoReset);
    assert_eq!(c.has_count("a\n ab"), true);
}

#[test]
fn appending_keeps_success_under_no_reset() {
    let c = Counter::new('a', 3, ResetPolicy::NoReset);
    assert_eq!(c.has_count("aabaa"), true);
    assert_eq!(c.has_count("aabaaxyz"), true);
    assert_eq!(c.has_count("aabaa\n \n"), true);
}

#[test]
fn newline_reset_blocks_the_run() {
    let c = Counter::new('a', 3, ResetPolicy::ResetOnNewline);
    assert_eq!(c.has_count("aa\naa"), false);
}

#[test]
fn uninterrupted_run_reaches_threshold() {
    let c = Counter::new('a', 3, ResetPolicy::ResetOnNewline);
    assert_eq!(c.has_count("aaaa"), true);
}

#[test]
fn run_of_exactly_threshold_is_not_seen() {
    // With the check before each character, a run of exactly `threshold`
    // copies ends the buffer before the count is ever observed at threshold.
    let c = Counter::new('a', 3, ResetPolicy::ResetOnNewline);
    assert_eq!(c.has_count("aaa"), false);
}

#[test]
fn newline_reset_does_not_react_to_space() {
    let c = Counter::new('a', 3, ResetPolicy::ResetOnNewline);
    assert_eq!(c.has_count("aa aab"), true);
}

#[test]
fn space_reset_does_not_react_to_newline() {
    let c = Counter::new('a', 3, ResetPolicy::ResetOnSpace);
    assert_eq!(c.has_count("aa\naab"), true);
}

#[test]
fn target_equal_to_reset_character() {
    // A space both resets and matches: the reset fires first, then the
    // match still adds one, so each space leaves a count of exactly one.
    let c = Counter::new(' ', 1, ResetPolicy::ResetOnSpace);
    assert_eq!(c.has_count(" "), false);
    assert_eq!(c.has_count("  "), true);
    let d = Counter::new(' ', 2, ResetPolicy::ResetOnSpace);
    assert_eq!(d.has_count("    "), false);
}

#[test]
fn newline_target_under_newline_reset() {
    let c = Counter::new('\n', 1, ResetPolicy::ResetOnNewline);
    assert_eq!(c.has_count("\n"), false);
    assert_eq!(c.has_count("\n\n"), true);
    let d = Counter::new('\n', 2, ResetPolicy::ResetOnNewline);
    assert_eq!(d.has_count("\n\n\n\n"), false);
}

#[test]
fn repeated_calls_agree() {
    let c = Counter::new('a', 3, ResetPolicy::ResetOnSpace);
    let first = c.has_count("aa aa");
    let second = c.has_count("aa aa");
    assert_eq!(first, second);
    let d = Counter::new('a', 2, ResetPolicy::NoReset);
    let once = d.has_count("aab");
    let again = d.has_count("aab");
    assert_eq!(once, again);
}

#[test]
fn configuration_is_kept_as_built() {
    let c = Counter::new('q', 7, ResetPolicy::ResetOnSpace);
    assert_eq!(c.target, 'q');
    assert_eq!(c.threshold, 7);
    assert_eq!(c.policy, ResetPolicy::ResetOnSpace);
}

#[test]
fn multibyte_characters_count_as_single_characters() {
    let c = Counter::new('é', 2, ResetPolicy::NoReset);
    assert_eq!(c.has_count("éxéx"), true);
    assert_eq!(c.has_count("éxx"), false);
}
