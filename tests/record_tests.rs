use rssscribe::record::{fetch_result, parse_lines};

fn pairs(fields: &[(String, String)]) -> Vec<(&str, &str)> {
    fields.iter().map(|(k, v)| (k.as_str(), v.as_str())).collect()
}

#[test]
fn good_lines_kept_in_order_and_bad_lines_counted() {
    let out = "{\"b\":\"x\",\"a\":1}\nnot json\n{\"c\":[1, 2]}\n[1,2]\n{\"d\":null}";
    let parsed = parse_lines(out);
    assert_eq!(parsed.records.len(), 3);
    assert_eq!(pairs(&parsed.records[0].fields), vec![("a", "1"), ("b", "\"x\"")]);
    assert_eq!(pairs(&parsed.records[1].fields), vec![("c", "[1,2]")]);
    assert_eq!(pairs(&parsed.records[2].fields), vec![("d", "null")]);
    assert_eq!(parsed.rejected, vec![1, 3]);
}

#[test]
fn carriage_returns_and_final_newline() {
    let parsed = parse_lines("{\"a\":1}\r\n{\"a\":2}\r\n");
    assert_eq!(parsed.records.len(), 2);
    assert_eq!(pairs(&parsed.records[1].fields), vec![("a", "2")]);
    assert!(parsed.rejected.is_empty());
}

#[test]
fn empty_lines_are_rejected() {
    let parsed = parse_lines("\n{\"a\":1}\n\n");
    assert_eq!(parsed.records.len(), 1);
    assert_eq!(parsed.rejected, vec![0, 2]);
}

#[test]
fn empty_output_gives_nothing() {
    let parsed = parse_lines("");
    assert!(parsed.records.is_empty());
    assert!(parsed.rejected.is_empty());
}

#[test]
fn failed_tool_run_fails_the_fetch() {
    match fetch_result(false, "", "ERROR: no such channel".to_string()) {
        Err(e) => assert_eq!(e.diagnostic, "ERROR: no such channel"),
        Ok(_) => panic!("a failed run must not give records"),
    }
}

#[test]
fn successful_tool_run_parses_output() {
    match fetch_result(true, "{\"title\":\"A\"}\nbroken\n", String::new()) {
        Ok(p) => {
            assert_eq!(p.records.len(), 1);
            assert_eq!(p.rejected, vec![1]);
        }
        Err(_) => panic!("a successful run must parse its output"),
    }
}
