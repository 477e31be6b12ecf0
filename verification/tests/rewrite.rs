use body_rewrite::rewrite::{apply_rule, replace_all, rewrite_buffer, RewriteConfig};

fn config(host: &[u8], target_port: &[u8], replacement_port: &[u8]) -> RewriteConfig {
    RewriteConfig::new(host.to_vec(), target_port.to_vec(), replacement_port.to_vec()).unwrap()
}

#[test]
fn replaces_localhost_and_loopback_in_json() {
    let target_port = b":9222";
    let replacement_port = b":443";
    let replacement_host = b"headless-browser";

    let input = format!(
        "{{\"ws1\":\"ws://127.0.0.1{}/devtools/browser/a\",\"ws2\":\"ws://localhost{}/devtools/browser/b\"}}",
        std::str::from_utf8(target_port).unwrap(),
        std::str::from_utf8(target_port).unwrap()
    );

    let cfg = config(replacement_host, target_port, replacement_port);
    let output = body_rewrite::body::modify_json_output_with_host(
        hyper::body::Bytes::from(input),
        &cfg,
    );
    let output_str = std::str::from_utf8(output.as_ref()).unwrap();

    assert!(!output_str.contains("127.0.0.1"));
    assert!(!output_str.contains("localhost"));
    assert!(output_str.contains("headless-browser"));
    assert!(!output_str.contains(std::str::from_utf8(target_port).unwrap()));
    assert!(output_str.contains(std::str::from_utf8(replacement_port).unwrap()));
}

#[test]
fn concrete_scenario_exact_output() {
    let input = "{\"ws1\":\"ws://127.0.0.1:9222/devtools/browser/a\",\"ws2\":\"ws://localhost:9222/devtools/browser/b\"}";
    let expected = "{\"ws1\":\"ws://headless-browser:443/devtools/browser/a\",\"ws2\":\"ws://headless-browser:443/devtools/browser/b\"}";
    let cfg = config(b"headless-browser", b":9222", b":443");
    let out = rewrite_buffer(&input.as_bytes().to_vec(), &cfg);
    assert_eq!(out, expected.as_bytes().to_vec());
}

#[test]
fn empty_input_gives_empty_output() {
    let cfg = config(b"headless-browser", b":9222", b":443");
    let out = rewrite_buffer(&Vec::new(), &cfg);
    assert!(out.is_empty());

    let out_bytes = body_rewrite::body::modify_json_output_with_host(
        hyper::body::Bytes::new(),
        &cfg,
    );
    assert!(out_bytes.is_empty());
}

#[test]
fn equal_rule_is_skipped_unchanged() {
    let buf = b"x localhost y localhost z".to_vec();
    let out = apply_rule(&buf, &b"localhost".to_vec(), &b"localhost".to_vec());
    assert_eq!(out, buf);
}

#[test]
fn host_kept_when_it_is_a_loopback_spelling() {
    // Replacement host equal to one pattern: that round is skipped, the
    // other still rewrites.
    let cfg = config(b"localhost", b":9222", b":443");
    let input = b"ws://127.0.0.1:9222/ and ws://localhost:9222/".to_vec();
    let out = rewrite_buffer(&input, &cfg);
    assert_eq!(out, b"ws://localhost:443/ and ws://localhost:443/".to_vec());
}

#[test]
fn absent_pattern_copies_verbatim() {
    let buf = b"nothing to see here".to_vec();
    let out = replace_all(&buf, &b"localhost".to_vec(), &b"example".to_vec());
    assert_eq!(out, buf);
}

#[test]
fn adjacent_occurrences_each_replaced() {
    let out = replace_all(&b"ababab".to_vec(), &b"ab".to_vec(), &b"z".to_vec());
    assert_eq!(out, b"zzz".to_vec());
}

#[test]
fn replacement_may_be_longer_shorter_or_empty() {
    let longer = replace_all(&b"a-a".to_vec(), &b"a".to_vec(), &b"xyz".to_vec());
    assert_eq!(longer, b"xyz-xyz".to_vec());

    let shorter = replace_all(&b"abcabc".to_vec(), &b"abc".to_vec(), &b"z".to_vec());
    assert_eq!(shorter, b"zz".to_vec());

    let erased = replace_all(&b"1a2a3".to_vec(), &b"a".to_vec(), &b"".to_vec());
    assert_eq!(erased, b"123".to_vec());
}

#[test]
fn length_accounting_holds_on_example() {
    // Two occurrences, pattern of 9 bytes, replacement of 16 bytes.
    let input = b"127.0.0.1 and 127.0.0.1".to_vec();
    let out = replace_all(&input, &b"127.0.0.1".to_vec(), &b"headless-browser".to_vec());
    assert_eq!(out.len(), input.len() + 2 * (16 - 9));
}

#[test]
fn rewrite_is_idempotent_for_distinct_replacements() {
    let cfg = config(b"headless-browser", b":9222", b":443");
    let input = b"{\"a\":\"ws://127.0.0.1:9222/x\",\"b\":\"ws://localhost:9222/y\"}".to_vec();
    let once = rewrite_buffer(&input, &cfg);
    let twice = rewrite_buffer(&once, &cfg);
    assert_eq!(twice, once);
}

#[test]
fn later_round_rewrites_bytes_from_earlier_round() {
    // The port round scans the host rounds' output, replacement text
    // included: this is the sequential-rounds contract.
    let cfg = config(b"host:9222", b":9222", b":443");
    let input = b"ws://localhost/".to_vec();
    let out = rewrite_buffer(&input, &cfg);
    assert_eq!(out, b"ws://host:443/".to_vec());
}

#[test]
fn empty_target_port_is_rejected() {
    assert!(RewriteConfig::new(b"h".to_vec(), Vec::new(), b":443".to_vec()).is_none());
    assert!(RewriteConfig::new(b"h".to_vec(), b":9222".to_vec(), b":443".to_vec()).is_some());
}

#[test]
fn untouched_when_no_target_present() {
    let cfg = config(b"headless-browser", b":9222", b":443");
    let input = b"ws://example.com:8080/devtools".to_vec();
    let out = rewrite_buffer(&input, &cfg);
    assert_eq!(out, input);
}
