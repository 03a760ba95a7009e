use bountycatch::domain::is_valid_domain;
use regex::Regex;

#[test]
fn test_valid_domains() {
    assert!(is_valid_domain("example.com"));
    assert!(is_valid_domain("sub.example.com"));
    assert!(is_valid_domain("*.example.com"));
    assert!(is_valid_domain("_service.example.com"));
    assert!(is_valid_domain("svc-*.domain.com"));
}

#[test]
fn test_invalid_domains() {
    assert!(!is_valid_domain(""));
    assert!(!is_valid_domain("*"));
    assert!(!is_valid_domain("*."));
    assert!(!is_valid_domain("*abc.com"));
    assert!(!is_valid_domain("domain.*"));
    assert!(!is_valid_domain("-.example.com"));
}

#[test]
fn wildcard_prefix_is_valid_and_wildcard_suffix_is_not() {
    assert!(is_valid_domain("*.example.com"));
    assert!(!is_valid_domain("example.*"));
    assert!(!is_valid_domain("-x.example.com"));
}

#[test]
fn validation_gives_the_same_answer_each_time() {
    for s in ["example.com", "*.example.com", "example.*", "", "a..b", "x-.y.com"] {
        let first = is_valid_domain(s);
        assert_eq!(is_valid_domain(s), first);
        assert_eq!(is_valid_domain(&s.to_string()), first);
    }
}

fn long_domain(len: usize) -> String {
    // labels of 50 characters, one that takes what is left, and `com`
    let mut labels: Vec<String> = Vec::new();
    let mut left = len - 4;
    while left > 63 {
        labels.push("a".repeat(50));
        left -= 51;
    }
    labels.push("b".repeat(left));
    let s = format!("{}.com", labels.join("."));
    assert_eq!(s.len(), len);
    assert!(s.split('.').all(|label| !label.is_empty() && label.len() <= 63));
    s
}

#[test]
fn length_limit_is_253() {
    assert!(is_valid_domain(&long_domain(100)));
    assert!(is_valid_domain(&long_domain(252)));
    assert!(is_valid_domain(&long_domain(253)));
    assert!(!is_valid_domain(&long_domain(254)));
    assert!(!is_valid_domain(&long_domain(255)));
    assert!(!is_valid_domain(&long_domain(300)));
}

#[test]
fn label_limit_is_63() {
    let ok = format!("{}.com", "a".repeat(63));
    let too_long = format!("{}.com", "a".repeat(64));
    assert!(is_valid_domain(&ok));
    assert!(!is_valid_domain(&too_long));
    let last_ok = format!("a.{}", "b".repeat(63));
    let last_too_long = format!("a.{}", "b".repeat(64));
    assert!(is_valid_domain(&last_ok));
    assert!(!is_valid_domain(&last_too_long));
}

#[test]
fn a_domain_needs_two_labels() {
    assert!(!is_valid_domain("localhost"));
    assert!(!is_valid_domain("com"));
    assert!(is_valid_domain("a.b"));
    assert!(is_valid_domain("1.2"));
}

#[test]
fn dots_and_hyphens_at_the_wrong_place() {
    assert!(!is_valid_domain(".example.com"));
    assert!(!is_valid_domain("example.com."));
    assert!(!is_valid_domain("a..com"));
    assert!(!is_valid_domain("a-.com"));
    assert!(!is_valid_domain("a.-b.com"));
    assert!(!is_valid_domain("-a.com"));
    assert!(!is_valid_domain("a.com-"));
    assert!(!is_valid_domain("a.-com"));
    assert!(is_valid_domain("a-b.c-d"));
    assert!(is_valid_domain("a--b.com"));
}

#[test]
fn the_last_label_takes_no_underscore_and_no_star() {
    assert!(!is_valid_domain("example._com"));
    assert!(!is_valid_domain("example.c_m"));
    assert!(!is_valid_domain("example.c*m"));
    assert!(is_valid_domain("_a_.b_c.com"));
    assert!(is_valid_domain("a*b.com"));
    assert!(is_valid_domain("x.*abc.com"));
    assert!(!is_valid_domain("**.com"));
    assert!(is_valid_domain("*.*.com"));
}

#[test]
fn other_characters_are_not_valid() {
    assert!(!is_valid_domain("exa mple.com"));
    assert!(!is_valid_domain("example.com\n"));
    assert!(!is_valid_domain(" example.com"));
    assert!(!is_valid_domain("ex\u{e4}mple.com"));
    assert!(!is_valid_domain("example.c\u{f6}m"));
    assert!(!is_valid_domain("\u{4f8b}\u{3048}.com"));
    assert!(!is_valid_domain("a/b.com"));
    assert!(!is_valid_domain("a@b.com"));
}

fn by_the_pattern(re: &Regex, domain: &str) -> bool {
    if domain.is_empty() || domain.len() > 253 {
        return false;
    }
    if domain.starts_with('*') && !domain.starts_with("*.") {
        return false;
    }
    if domain.ends_with('*') || domain == "*" {
        return false;
    }
    if domain.contains(".-")
        || domain.contains("-.")
        || domain.starts_with('.')
        || domain.ends_with('.')
    {
        return false;
    }
    re.is_match(domain)
}

fn the_pattern() -> Regex {
    Regex::new(
        r"^(?:(?:\*\.)?(?:[a-zA-Z0-9_*](?:[a-zA-Z0-9_*-]{0,61}[a-zA-Z0-9_*])?\.)+[a-zA-Z0-9](?:[a-zA-Z0-9-]{0,61}[a-zA-Z0-9])?)$",
    )
    .unwrap()
}

#[test]
fn agrees_with_the_regular_expression_on_short_strings() {
    let re = the_pattern();
    let alphabet = ['a', 'Z', '0', '-', '_', '*', '.'];
    let mut strings: Vec<String> = vec![String::new()];
    let mut from = 0;
    for _ in 0..6 {
        let to = strings.len();
        for i in from..to {
            for c in alphabet {
                let mut s = strings[i].clone();
                s.push(c);
                strings.push(s);
            }
        }
        from = to;
    }
    assert_eq!(strings.len(), 1 + 7 + 49 + 343 + 2401 + 16807 + 117649);
    let mut valid = 0;
    for s in &strings {
        let expected = by_the_pattern(&re, s);
        assert_eq!(is_valid_domain(s), expected, "{:?}", s);
        if expected {
            valid += 1;
        }
    }
    assert!(valid > 1000);
}

#[test]
fn agrees_with_the_regular_expression_on_long_strings() {
    let re = the_pattern();
    let mut cases: Vec<String> = Vec::new();
    for label in [1usize, 2, 61, 62, 63, 64, 65, 126, 127] {
        for last in [1usize, 2, 62, 63, 64, 65] {
            for (head, tail) in [("a", "a"), ("-", "a"), ("a", "-"), ("_", "*"), ("*", "a"), ("a", "_")] {
                let mut first = String::from(head);
                if label > 1 {
                    first.push_str(&"x".repeat(label.saturating_sub(2)));
                    first.push_str(if label > 1 { tail } else { "" });
                }
                let mut end = String::from("b");
                if last > 1 {
                    end.push_str(&"-".repeat(last - 2));
                    end.push('c');
                }
                cases.push(format!("{}.{}", first, end));
                cases.push(format!("{}.mid.{}", first, end));
                cases.push(format!("*.{}.{}", first, end));
                cases.push(format!("{}.{}.{}.{}", first, first, first, end));
                cases.push(format!("{}.{}.{}.{}.{}", first, first, first, first, end));
            }
        }
    }
    for len in 240..270 {
        cases.push(long_domain(len));
    }
    let mut valid = 0;
    for s in &cases {
        let expected = by_the_pattern(&re, s);
        assert_eq!(is_valid_domain(s), expected, "{:?}", s);
        if expected {
            valid += 1;
        }
    }
    assert!(valid > 100);
}
