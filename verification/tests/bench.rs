use repair_json::bench_data::generate_test_data;
use repair_json::rust_no_val;
use repair_json::rust_val;

fn reference_data(size: usize, error_type: &str) -> Vec<u8> {
    let mut s = String::with_capacity(size);
    match error_type {
        "trailing_comma" => {
            s.push_str("{'items':[");
            let mut i = 0;
            while s.len() < size - 20 {
                if i > 0 {
                    s.push(',');
                }
                s.push_str(&format!("{}", i));
                i += 1;
            }
            s.push_str("],}");
        }
        "single_quotes" => {
            s.push_str("{'key':'value'");
            let mut depth = 1;
            while s.len() < size - 30 {
                s.push_str(",'nested':{'a':'b'");
                depth += 1;
            }
            s.push_str(&"}".repeat(depth));
            s.push('}');
        }
        "mixed" => {
            s.push_str("{'items':[1,2,3,],'name':'test'");
            while s.len() < size - 50 {
                s.push_str(",'extra':{'a':[1,]}");
            }
            s.push('}');
        }
        "valid" => {
            s.push_str("{\"items\":[");
            let mut i = 0;
            while s.len() < size - 20 {
                if i > 0 {
                    s.push(',');
                }
                s.push_str(&format!("{}", i));
                i += 1;
            }
            s.push_str("]}");
        }
        _ => {}
    }
    s.into_bytes()
}

#[test]
fn generated_data_matches_reference() {
    for kind in ["trailing_comma", "single_quotes", "mixed", "valid"] {
        for size in [50, 51, 99, 1000, 10000] {
            assert_eq!(generate_test_data(size, kind), reference_data(size, kind), "{kind} {size}");
        }
    }
}

#[test]
fn generated_data_small_exact() {
    assert_eq!(generate_test_data(25, "trailing_comma"), b"{'items':[],}".to_vec());
    assert_eq!(generate_test_data(31, "trailing_comma"), b"{'items':[0],}".to_vec());
    assert_eq!(generate_test_data(33, "trailing_comma"), b"{'items':[0,1],}".to_vec());
    assert_eq!(generate_test_data(30, "valid"), b"{\"items\":[]}".to_vec());
    assert_eq!(generate_test_data(60, "mixed"), b"{'items':[1,2,3,],'name':'test'}".to_vec());
    assert_eq!(generate_test_data(30, "single_quotes"), b"{'key':'value'}}".to_vec());
}

#[test]
fn unknown_kind_gives_nothing() {
    assert!(generate_test_data(1000, "other").is_empty());
}

#[test]
fn benchmark_variants_repair_generated_data() {
    for kind in ["trailing_comma", "mixed", "valid"] {
        let data = generate_test_data(10000, kind);
        let out = rust_val::repair_json(&data).unwrap();
        assert!(serde_json::from_slice::<serde_json::Value>(&out).is_ok());
        assert_eq!(rust_no_val::repair_json(&data).unwrap(), out);
    }
}

#[test]
fn benchmark_variants_messages() {
    assert_eq!(rust_val::repair_json(b"[{").unwrap_err(), "Unclosed containers: 2");
    assert_eq!(rust_no_val::repair_json(b"[{").unwrap_err(), "Unclosed containers: 2");
    assert_eq!(rust_val::repair_json(b"{a:1}").unwrap_err(), "Invalid JSON after repair");
    assert_eq!(rust_no_val::repair_json(b"{a:1}").unwrap(), b"{a:1}".to_vec());
    assert_eq!(rust_no_val::repair_json(b"'abc").unwrap(), b"\"abc".to_vec());
}

#[test]
fn single_quotes_data_has_extra_closer() {
    let data = generate_test_data(1000, "single_quotes");
    let out = rust_val::repair_json(&data).unwrap();
    assert!(serde_json::from_slice::<serde_json::Value>(&out).is_ok());
}

#[test]
fn benchmark_escape_handling() {
    assert_eq!(rust_val::repair_json(br"{'key':'value\'s'}").unwrap(), br#"{"key":"value's"}"#.to_vec());
}
