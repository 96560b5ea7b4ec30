use reservation_mailer::numbers::{parse_u32, push_decimal};

fn chars(s: &str) -> Vec<char> {
    s.chars().collect()
}

#[test]
fn parse_agrees_with_std() {
    for s in ["0", "7", "+12", "007", "4294967295", "4294967296", "", "+", "-1", "1 ", " 1", "12a", "99999999999"] {
        assert_eq!(parse_u32(&chars(s)), s.parse::<u32>().ok(), "input {:?}", s);
    }
}

#[test]
fn decimal_agrees_with_display() {
    for n in [0u32, 5, 9, 10, 42, 100, 4294967295] {
        let mut out = vec!['x'];
        push_decimal(n, &mut out);
        let s: String = out[1..].iter().collect();
        assert_eq!(s, n.to_string());
        assert_eq!(out[0], 'x');
    }
}

#[test]
fn decimal_reads_back() {
    for n in [0u32, 1, 123456, 4294967295] {
        let mut out = Vec::new();
        push_decimal(n, &mut out);
        assert_eq!(parse_u32(&out), Some(n));
    }
}
