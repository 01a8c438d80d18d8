use kftun::peer::PeerAddr;
use kftun::stun::{is_whitespace, stun_server_names, StunSearch};

fn std_names(text: &str) -> Vec<String> {
    text.lines().map(str::trim).filter(|s| !s.is_empty()).map(String::from).collect()
}

#[test]
fn names_like_lines_trim_filter() {
    for text in [
        "",
        "\n",
        "stun.l.google.com:19302",
        "a:1\nb:2\n",
        "  a:1  \r\n\r\n\t b:2\t\n   \n",
        "\u{3000}x\u{2028}\ny",
        "\r",
        "a\n\n\nb",
    ] {
        assert_eq!(stun_server_names(text), std_names(text), "{:?}", text);
    }
}

#[test]
fn whitespace_like_char_is_whitespace() {
    for c in ['\t', '\n', '\u{b}', '\u{c}', '\r', ' ', '\u{85}', '\u{a0}', '\u{1680}', '\u{2000}',
        '\u{200a}', '\u{200b}', '\u{2028}', '\u{2029}', '\u{202f}', '\u{205f}', '\u{3000}', 'a', '\u{1f}', '\u{feff}']
    {
        assert_eq!(is_whitespace(c), c.is_whitespace(), "{:?}", c);
    }
}

fn addr(port: u16) -> PeerAddr {
    PeerAddr { is_v6: false, ip: 0x01020304, port, flowinfo: 0, scope_id: 0 }
}

#[test]
fn search_asks_each_port_until_known() {
    let mut s = StunSearch::new();
    assert!(s.needs_port1() && s.needs_port2());
    s.answer_port1(Some(addr(1)));
    s.answer_port2(None);
    assert!(!s.needs_port1());
    assert!(s.needs_port2());
    assert_eq!(s.found(), None);
    s.answer_port1(Some(addr(9)));
    s.answer_port2(Some(addr(2)));
    assert_eq!(s.found(), Some((addr(1), addr(2))));
}
