use wasm_test_runner::filter::filter;

#[test]
fn redraws_collapse_to_the_last_state() {
    assert_eq!(filter("10%\r50%\r100%\n"), "100%\n");
}

#[test]
fn any_number_of_redraws_leaves_one_clean_line() {
    for k in 0..20 {
        let mut raw = String::new();
        for step in 0..k {
            raw.push_str(&format!("progress {}%\r", step * 5));
        }
        raw.push_str("done\n");
        let clean = filter(&raw);
        assert_eq!(clean, "done\n");
        assert_eq!(clean.bytes().filter(|b| *b == b'\r').count(), 0);
    }
}

#[test]
fn unterminated_redrawn_line_gets_its_line_feed() {
    assert_eq!(filter("10%\r50%\r100%"), "100%\n");
}

#[test]
fn clean_text_is_left_alone() {
    assert_eq!(filter("running 1 test\ntest a ... ok\n"), "running 1 test\ntest a ... ok\n");
    assert_eq!(filter("no line feed"), "no line feed");
    assert_eq!(filter(""), "");
    assert_eq!(filter("\n\n"), "\n\n");
}

#[test]
fn filtering_twice_changes_nothing_more() {
    let inputs = [
        "Loading page...\r               \rrunning 1 test\ntest a ... ok\n",
        "a\rb\nc\rd",
        "\r",
        "x\r\ny\r\n",
        "plain",
    ];
    for raw in inputs {
        let once = filter(raw);
        assert_eq!(filter(&once), once);
    }
}

#[test]
fn status_line_is_overwritten_by_what_follows_it() {
    let raw = "Loading page...\r               \rrunning 1 test\ntest test_1 ... ok\n";
    assert_eq!(filter(raw), "running 1 test\ntest test_1 ... ok\n");
}

#[test]
fn every_line_is_filtered_on_its_own() {
    assert_eq!(filter("a\rb\nc\rd\ne\n"), "b\nd\ne\n");
}

#[test]
fn carriage_return_at_the_end_of_a_line_leaves_an_empty_line() {
    assert_eq!(filter("gone\r\nkept\n"), "\nkept\n");
    assert_eq!(filter("gone\r"), "\n");
    assert_eq!(filter("\r"), "\n");
}

#[test]
fn no_byte_of_the_result_is_a_carriage_return() {
    let raw = "\r\r\ra\r\rb\r\n\r\nc\r";
    let clean = filter(raw);
    for byte in clean.bytes() {
        assert_ne!(byte, b'\r');
    }
    assert_eq!(clean, "\n\n\n");
}

#[test]
fn characters_outside_ascii_pass_through() {
    assert_eq!(filter("ä\rö→ü\n"), "ö→ü\n");
}
