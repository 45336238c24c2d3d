use axum_tariff::ip::{parse_group, parse_ipv4, parse_ipv6, parse_octet};
use axum_tariff::{parse_ip, IpAddress};

#[test]
fn dotted_quads_are_read() {
    assert_eq!(parse_ip(b"8.8.8.8"), Some(IpAddress::V4([8, 8, 8, 8])));
    assert_eq!(parse_ip(b"2.125.160.218"), Some(IpAddress::V4([2, 125, 160, 218])));
    assert_eq!(parse_ip(b"0.0.0.0"), Some(IpAddress::V4([0, 0, 0, 0])));
    assert_eq!(parse_ip(b"255.255.255.255"), Some(IpAddress::V4([255, 255, 255, 255])));
    assert_eq!(parse_ip(b"192.168.1.1"), Some(IpAddress::V4([192, 168, 1, 1])));
}

#[test]
fn malformed_dotted_quads_are_refused() {
    for text in [
        "", ".", "1", "1.2", "1.2.3", "1.2.3.", ".1.2.3", "1..2.3", "1.2.3.4.", "1.2.3.4.5",
        "256.1.1.1", "1.1.1.256", "1.1.1.999", "1.1.1.1000", "01.2.3.4", "1.2.3.04", "00.0.0.0",
        "1.2.3.4 ", " 1.2.3.4", "1.2.3.a", "1.2.3.-4", "1.2.3.+4", "1,2,3,4", "1.2.3.4/8",
        "0x1.2.3.4", "1.2.3.4\n",
    ] {
        assert_eq!(parse_ip(text.as_bytes()), None, "on {:?}", text);
    }
}

#[test]
fn full_ipv6_addresses_are_read() {
    assert_eq!(
        parse_ip(b"2001:db8:85a3:0:0:8a2e:370:7334"),
        Some(IpAddress::V6([0x2001, 0xdb8, 0x85a3, 0, 0, 0x8a2e, 0x370, 0x7334]))
    );
    assert_eq!(
        parse_ip(b"FFFF:ffff:FfFf:0000:0001:000a:00B0:0c00"),
        Some(IpAddress::V6([0xffff, 0xffff, 0xffff, 0, 1, 0xa, 0xb0, 0xc00]))
    );
    assert_eq!(
        parse_ip(b"1:2:3:4:5:6:7:8"),
        Some(IpAddress::V6([1, 2, 3, 4, 5, 6, 7, 8]))
    );
}

#[test]
fn compressed_ipv6_addresses_are_read() {
    assert_eq!(parse_ip(b"::"), Some(IpAddress::V6([0, 0, 0, 0, 0, 0, 0, 0])));
    assert_eq!(parse_ip(b"::1"), Some(IpAddress::V6([0, 0, 0, 0, 0, 0, 0, 1])));
    assert_eq!(parse_ip(b"1::"), Some(IpAddress::V6([1, 0, 0, 0, 0, 0, 0, 0])));
    assert_eq!(parse_ip(b"2001:db8::1"), Some(IpAddress::V6([0x2001, 0xdb8, 0, 0, 0, 0, 0, 1])));
    assert_eq!(parse_ip(b"1:2:3:4:5:6:7::"), Some(IpAddress::V6([1, 2, 3, 4, 5, 6, 7, 0])));
    assert_eq!(parse_ip(b"::2:3:4:5:6:7:8"), Some(IpAddress::V6([0, 2, 3, 4, 5, 6, 7, 8])));
    assert_eq!(parse_ip(b"1:2:3::6:7:8"), Some(IpAddress::V6([1, 2, 3, 0, 0, 6, 7, 8])));
}

#[test]
fn dotted_quad_may_end_an_ipv6_address() {
    assert_eq!(
        parse_ip(b"::ffff:192.0.2.1"),
        Some(IpAddress::V6([0, 0, 0, 0, 0, 0xffff, 0xc000, 0x0201]))
    );
    assert_eq!(
        parse_ip(b"1:2:3:4:5:6:255.254.1.0"),
        Some(IpAddress::V6([1, 2, 3, 4, 5, 6, 0xfffe, 0x0100]))
    );
    assert_eq!(parse_ip(b"::1.2.3.4"), Some(IpAddress::V6([0, 0, 0, 0, 0, 0, 0x0102, 0x0304])));
    assert_eq!(
        parse_ip(b"64:ff9b::10.0.0.1"),
        Some(IpAddress::V6([0x64, 0xff9b, 0, 0, 0, 0, 0x0a00, 0x0001]))
    );
    assert_eq!(
        parse_ip(b"1:2:3:4:5::1.2.3.4"),
        Some(IpAddress::V6([1, 2, 3, 4, 5, 0, 0x0102, 0x0304]))
    );
}

#[test]
fn malformed_ipv6_addresses_are_refused() {
    for text in [
        ":", ":::", "1:", ":1", "1:2", "1:2:3:4:5:6:7", "1:2:3:4:5:6:7:8:9", "1:2:3:4:5:6:7:8::",
        "::1:2:3:4:5:6:7:8", "1::2::3", "1:::2", "::1::", "12345::", "::12345", "g::", "::g",
        "1:2:3:4:5:6:7:1.2.3.4", "1:2:3:4:5:1.2.3.4", "1.2.3.4::", "1.2.3.4::1", "::1.2.3.4:5",
        "::1.2.3", "::1.2.3.256", "::01.2.3.4", "1:2:3:4:5:6::1.2.3.4", "1:2:3:4:5:6:7::8",
        "::1%eth0", "[::1]", "::1 ", " ::1", "1:2:3:4:5:6:7:", ":1:2:3:4:5:6:7", "::.1.2.3",
        "1::2:", ":1::2", "::1:", "1:2:3:4::5:6:7:8", "::ffff:1.2.3.4.5", "1:2:3:4:5:6:7:8:",
    ] {
        assert_eq!(parse_ip(text.as_bytes()), None, "on {:?}", text);
    }
}

#[test]
fn each_form_has_its_own_reader() {
    assert_eq!(parse_ipv4(b"10.20.30.40"), Some([10, 20, 30, 40]));
    assert_eq!(parse_ipv4(b"::1"), None);
    assert_eq!(parse_ipv4(b"::10.20.30.40"), None);
    assert_eq!(parse_ipv6(b"::1"), Some([0, 0, 0, 0, 0, 0, 0, 1]));
    assert_eq!(parse_ipv6(b"10.20.30.40"), None);
    assert_eq!(parse_octet(b"0"), Some(0));
    assert_eq!(parse_octet(b"255"), Some(255));
    assert_eq!(parse_octet(b"256"), None);
    assert_eq!(parse_octet(b"007"), None);
    assert_eq!(parse_octet(b""), None);
    assert_eq!(parse_octet(b"1f"), None);
    assert_eq!(parse_group(b"0"), Some(0));
    assert_eq!(parse_group(b"fFfF"), Some(0xffff));
    assert_eq!(parse_group(b"0abc"), Some(0xabc));
    assert_eq!(parse_group(b"10000"), None);
    assert_eq!(parse_group(b""), None);
    assert_eq!(parse_group(b"12g"), None);
}

#[test]
fn leading_zeros_are_kept_out_of_octets_but_not_of_groups() {
    assert_eq!(parse_ip(b"1.2.3.04"), None);
    assert_eq!(parse_ip(b"0.0.0.00"), None);
    assert_eq!(parse_ip(b"::0001"), Some(IpAddress::V6([0, 0, 0, 0, 0, 0, 0, 1])));
    assert_eq!(parse_ip(b"::00001"), None);
    assert_eq!(parse_ip(b"0::0"), Some(IpAddress::V6([0, 0, 0, 0, 0, 0, 0, 0])));
    assert_eq!(parse_ip(b"::0.0.0.0"), Some(IpAddress::V6([0, 0, 0, 0, 0, 0, 0, 0])));
    assert_eq!(
        parse_ip(b"ffff:ffff:ffff:ffff:ffff:ffff:255.255.255.255"),
        Some(IpAddress::V6([0xffff; 8]))
    );
}

struct Generator {
    state: u64,
}

impl Generator {
    fn next(&mut self, n: u64) -> usize {
        self.state ^= self.state << 13;
        self.state ^= self.state >> 7;
        self.state ^= self.state << 17;
        ((self.state >> 33) % n) as usize
    }

    fn group(&mut self) -> String {
        let hex = b"0123456789abcdefABCDEF";
        let n = 1 + self.next(5);
        (0..n).map(|_| hex[self.next(22)] as char).collect()
    }

    fn octet(&mut self) -> String {
        match self.next(10) {
            0 => format!("0{}", self.next(100)),
            1 => String::new(),
            _ => format!("{}", self.next(300)),
        }
    }

    fn quad(&mut self) -> String {
        let n = [4, 4, 4, 4, 4, 4, 3, 5][self.next(8)];
        let octets: Vec<String> = (0..n).map(|_| self.octet()).collect();
        octets.join(".")
    }

    fn six(&mut self) -> String {
        let h = self.next(9);
        let gap = self.next(3) > 0;
        let t = self.next(9);
        let head: Vec<String> = (0..h).map(|_| self.group()).collect();
        let mut tail: Vec<String> = (0..t).map(|_| self.group()).collect();
        if !tail.is_empty() && self.next(3) == 0 {
            let last = tail.len() - 1;
            tail[last] = self.quad();
        }
        let mut text = head.join(":");
        if gap {
            text.push_str("::");
        } else if !head.is_empty() && !tail.is_empty() {
            text.push(':');
        }
        text.push_str(&tail.join(":"));
        text
    }

    fn text(&mut self) -> String {
        let any = b"0123456789abcdefABCDEF:.:. g";
        let n = self.next(20);
        (0..n).map(|_| any[self.next(28)] as char).collect()
    }

    fn sample(&mut self) -> String {
        match self.next(4) {
            0 => self.text(),
            1 => self.quad(),
            _ => self.six(),
        }
    }
}

fn fold(hash: u64, byte: u8) -> u64 {
    (hash ^ byte as u64).wrapping_mul(0x100_0000_01b3)
}

/// Reads two hundred thousand generated texts, most of them near misses of an
/// address, and folds what comes out into one number. The expected counts and
/// the expected number come from reading the same texts with the `ipaddress`
/// module of Python.
#[test]
fn generated_text_is_read_as_expected() {
    let mut generator = Generator { state: 0x9e37_79b9_7f4a_7c15 };
    let mut first = Vec::new();
    for _ in 0..3 {
        first.push(generator.sample());
    }
    assert_eq!(first, ["d:5a:bB0:A:0:8f:1c8b:37be7", ".201.120.60", "::4DeA:1093A:f51Aa:127.173.128.292"]);

    let mut generator = Generator { state: 0x9e37_79b9_7f4a_7c15 };
    let mut hash: u64 = 0xcbf2_9ce4_8422_2325;
    let mut quads = 0;
    let mut sixes = 0;
    for _ in 0..200_000 {
        let text = generator.sample();
        match parse_ip(text.as_bytes()) {
            None => hash = fold(hash, 0),
            Some(IpAddress::V4(octets)) => {
                quads += 1;
                hash = fold(hash, 4);
                for o in octets {
                    hash = fold(hash, o);
                }
            }
            Some(IpAddress::V6(groups)) => {
                sixes += 1;
                hash = fold(hash, 6);
                for g in groups {
                    hash = fold(hash, (g >> 8) as u8);
                    hash = fold(hash, (g & 0xff) as u8);
                }
            }
        }
    }
    assert_eq!(quads, 8286);
    assert_eq!(sixes, 10044);
    assert_eq!(hash, 0x0093_81d5_d905_d9b6);
}
