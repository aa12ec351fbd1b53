use gowin_flash::heuristics::parse_cable_names;

fn names(text: &[u8]) -> Vec<Vec<u8>> {
    parse_cable_names(text)
}

#[test]
fn key_value_rule_recovers_quoted_name() {
    let r = names(b"Cable: \"FT2232H-A\"");
    assert_eq!(r, vec![b"FT2232H-A".to_vec()]);
}

#[test]
fn quoted_token_and_phrase_rules_both_fire() {
    let r = names(b"Found \"Gowin USB Cable(FT2232H)\" attached");
    assert_eq!(
        r,
        vec![
            b"Gowin USB Cable(FT2232H)".to_vec(),
            b"Found \"Gowin USB Cable(FT2232H)\" attached".to_vec(),
        ]
    );
}

#[test]
fn duplicate_names_reported_once() {
    let r = names(b"\"Gowin Cable\"\n\"Gowin Cable\"");
    assert_eq!(r, vec![b"Gowin Cable".to_vec()]);
}

#[test]
fn list_decoration_is_stripped() {
    let r = names(b"  1) Gowin USB Cable 2.0\n");
    assert_eq!(r, vec![b"Gowin USB Cable 2.0".to_vec()]);
}

#[test]
fn key_value_rule_accepts_equals_sign() {
    let r = names(b"cable=GWU2X");
    assert_eq!(r, vec![b"GWU2X".to_vec()]);
}

#[test]
fn key_value_rule_prefers_any_colon_over_earlier_equals() {
    let r = names(b"cable=A:B");
    assert_eq!(r, vec![b"B".to_vec()]);
}

#[test]
fn multiple_quoted_tokens_in_line_order() {
    let r = names(b"\"Gowin A\" and \"Cable B\"");
    assert_eq!(r, vec![b"Gowin A".to_vec(), b"Cable B".to_vec()]);
}

#[test]
fn unrelated_text_yields_nothing() {
    let r = names(b"hello world\n\n\"irrelevant\"");
    assert!(r.is_empty());
    assert!(names(b"").is_empty());
}

#[test]
fn keyword_match_is_case_insensitive() {
    let r = names(b"CABLE : X99");
    assert_eq!(r, vec![b"X99".to_vec()]);
}

#[test]
fn parsing_twice_yields_the_same_deduplicated_list() {
    let text: &[u8] = b"Cable: \"FT2232H-A\"\n\"Gowin A\" and \"Cable B\"\nCable: \"FT2232H-A\"";
    let first = names(text);
    let second = names(text);
    assert_eq!(first, second);
    for i in 0..first.len() {
        for j in 0..first.len() {
            if i != j {
                assert_ne!(first[i], first[j]);
            }
        }
    }
    assert_eq!(
        first,
        vec![b"FT2232H-A".to_vec(), b"Gowin A".to_vec(), b"Cable B".to_vec()]
    );
}

#[test]
fn names_are_never_empty() {
    let r = names(b"Cable: \"\"\ncable:\ncable =   ");
    assert!(r.is_empty());
}

#[test]
fn quoted_blank_after_key_is_reported_as_is() {
    // The key-value rule trims before stripping quotes, so a quoted blank
    // value survives as a one-space name.
    let r = names(b"Cable: \" \"");
    assert_eq!(r, vec![b" ".to_vec()]);
}

#[test]
fn unmatched_quote_yields_no_token() {
    let r = names(b"say \"gowin");
    assert!(r.is_empty());
}
