use sockscope::schemas::{Endpoint, IpAddress, Protocol, SocketEntry, SocketState};
use sockscope::table::{
    decode_address, decode_endpoint, decode_port, decode_state, encode_endpoint, field_of,
    first_line, parse_row, parse_table, parse_tables, scan_table,
};
use sockscope::text::{decimal_bytes, parse_decimal};

const TCP_ROW: &[u8] = b"   0: 0100007F:1F90 0200007F:D431 01 00000000:00000000 00:00000000 00000000  1000        0 34567 1 0000000000000000 20 4 30 10 -1";

#[test]
fn loopback_row_decodes_to_address_and_port() {
    let e = decode_endpoint(&b"0100007F:1F90".to_vec()).unwrap();
    assert_eq!(e.address, IpAddress::V4(0x7F00_0001));
    assert_eq!(e.port, 8080);
    assert_eq!(e.address.text(), b"127.0.0.1".to_vec());
    assert_eq!(e.text(), b"127.0.0.1:8080".to_vec());
}

#[test]
fn ipv4_round_trip_gives_the_bytes_back() {
    let field = b"0100007F:1F90".to_vec();
    let e = decode_endpoint(&field).unwrap();
    assert_eq!(encode_endpoint(e), field);
    let other = b"C0A8000A:01BB".to_vec();
    assert_eq!(encode_endpoint(decode_endpoint(&other).unwrap()), other);
}

#[test]
fn ipv6_round_trip_gives_the_bytes_back() {
    let field = b"00000000000000000000000001000000:0016".to_vec();
    let e = decode_endpoint(&field).unwrap();
    assert_eq!(e.address, IpAddress::V6(0, 0, 0, 1));
    assert_eq!(e.port, 22);
    assert_eq!(e.address.text(), b"0:0:0:0:0:0:0:1".to_vec());
    assert_eq!(encode_endpoint(e), field);

    let full = b"B80D01200000000067452301EFCDAB89:1F90".to_vec();
    let e = decode_endpoint(&full).unwrap();
    assert_eq!(e.address, IpAddress::V6(0x2001_0DB8, 0, 0x0123_4567, 0x89AB_CDEF));
    assert_eq!(e.address.text(), b"2001:db8:0:0:123:4567:89ab:cdef".to_vec());
    assert_eq!(encode_endpoint(e), full);
}

#[test]
fn encoded_endpoint_decodes_to_itself() {
    let e = Endpoint { address: IpAddress::V4(0x0A00_0001), port: 443 };
    assert_eq!(encode_endpoint(e), b"0100000A:01BB".to_vec());
    assert_eq!(decode_endpoint(&encode_endpoint(e)), Some(e));
    let v6 = Endpoint { address: IpAddress::V6(u32::MAX, 0, 7, 0xFE80_0000), port: u16::MAX };
    assert_eq!(decode_endpoint(&encode_endpoint(v6)), Some(v6));
}

#[test]
fn malformed_endpoints_are_refused() {
    assert_eq!(decode_endpoint(&b"".to_vec()), None);
    assert_eq!(decode_endpoint(&b"0100007F".to_vec()), None);
    assert_eq!(decode_endpoint(&b"0100007F-1F90".to_vec()), None);
    assert_eq!(decode_endpoint(&b"0100007G:1F90".to_vec()), None);
    assert_eq!(decode_endpoint(&b"0100007f:1f90".to_vec()), None);
    assert_eq!(decode_endpoint(&b"0100007F:1F9".to_vec()), None);
    assert_eq!(decode_endpoint(&b"0100007F00:1F90".to_vec()), None);
    assert_eq!(decode_address(&b"0100007".to_vec()), None);
    assert_eq!(decode_port(&b"1F90A".to_vec()), None);
    assert_eq!(decode_port(&b"FFFF".to_vec()), Some(65535));
}

#[test]
fn state_codes_have_their_names() {
    assert_eq!(decode_state(Protocol::Tcp, 0x0A), SocketState::Listen);
    assert_eq!(decode_state(Protocol::Tcp, 0x01), SocketState::Established);
    assert_eq!(decode_state(Protocol::Tcp, 0x06), SocketState::TimeWait);
    assert_eq!(decode_state(Protocol::Tcp, 0x0B), SocketState::Closing);
    assert_eq!(decode_state(Protocol::Tcp, 0x0C), SocketState::Unknown);
    assert_eq!(decode_state(Protocol::Tcp, 0), SocketState::Unknown);
    assert_eq!(decode_state(Protocol::Udp, 0x07), SocketState::Open);
    assert_eq!(decode_state(Protocol::Udp, 0x0A), SocketState::Open);
    assert_eq!(SocketState::Listen.name(), "LISTEN");
    assert_eq!(SocketState::Established.name(), "ESTABLISHED");
    assert_eq!(Protocol::Tcp.name(), "tcp");
    assert_eq!(Protocol::Udp.name(), "udp");
}

#[test]
fn fields_are_split_at_blanks() {
    let row = TCP_ROW.to_vec();
    assert_eq!(field_of(&row, 0), b"0:".to_vec());
    assert_eq!(field_of(&row, 1), b"0100007F:1F90".to_vec());
    assert_eq!(field_of(&row, 3), b"01".to_vec());
    assert_eq!(field_of(&row, 9), b"34567".to_vec());
    assert_eq!(field_of(&row, 16), b"-1".to_vec());
    assert_eq!(field_of(&row, 17), Vec::<u8>::new());
    assert_eq!(field_of(&b"a\tb  c ".to_vec(), 2), b"c".to_vec());
    assert_eq!(field_of(&Vec::new(), 0), Vec::<u8>::new());
}

#[test]
fn row_decodes_to_entry() {
    let e = parse_row(&TCP_ROW.to_vec(), Protocol::Tcp).unwrap();
    assert_eq!(
        e,
        SocketEntry {
            proto: Protocol::Tcp,
            local: Endpoint { address: IpAddress::V4(0x7F00_0001), port: 8080 },
            remote: Endpoint { address: IpAddress::V4(0x7F00_0002), port: 54321 },
            state: SocketState::Established,
            handle: 34567,
        }
    );
    let u = parse_row(&TCP_ROW.to_vec(), Protocol::Udp).unwrap();
    assert_eq!(u.state, SocketState::Open);
    assert_eq!(u.proto, Protocol::Udp);
}

#[test]
fn rows_that_are_not_well_formed_are_refused() {
    let header = b"  sl  local_address rem_address   st tx_queue rx_queue tr tm->when retrnsmt   uid  timeout inode".to_vec();
    assert_eq!(parse_row(&header, Protocol::Tcp), None);
    assert_eq!(parse_row(&Vec::new(), Protocol::Tcp), None);
    let short = b"   0: 0100007F:1F90 0200007F:D431 01".to_vec();
    assert_eq!(parse_row(&short, Protocol::Tcp), None);
    let bad_state = b"0: 0100007F:1F90 0200007F:D431 0Z 0:0 0:0 0 0 0 5".to_vec();
    assert_eq!(parse_row(&bad_state, Protocol::Tcp), None);
    let bad_handle = b"0: 0100007F:1F90 0200007F:D431 01 0:0 0:0 0 0 0 5x".to_vec();
    assert_eq!(parse_row(&bad_handle, Protocol::Tcp), None);
    let mixed = b"0: 0100007F:1F90 00000000000000000000000001000000:0016 01 0:0 0:0 0 0 0 5".to_vec();
    assert_eq!(parse_row(&mixed, Protocol::Tcp), None);
    let good = b"0: 0100007F:1F90 0200007F:D431 01 0:0 0:0 0 0 0 5".to_vec();
    assert!(parse_row(&good, Protocol::Tcp).is_some());
}

#[test]
fn one_malformed_row_does_not_end_the_scan() {
    let text = b"  sl  local_address rem_address   st tx_queue rx_queue tr tm->when retrnsmt   uid  timeout inode\n   0: 00000000:0016 00000000:0000 0A 00000000:00000000 00:00000000 00000000     0        0 100 1\n   1: garbage\n\n   2: 0100007F:1F90 0200007F:D431 01 00000000:00000000 00:00000000 00000000  1000        0 300 1".to_vec();
    let entries = parse_table(&text, Protocol::Tcp);
    assert_eq!(entries.len(), 2);
    assert_eq!(entries[0].handle, 100);
    assert_eq!(entries[0].state, SocketState::Listen);
    assert_eq!(entries[0].local.port, 22);
    assert_eq!(entries[1].handle, 300);
    assert_eq!(entries[1].remote.port, 54321);
}

#[test]
fn empty_table_has_no_entries() {
    assert!(parse_table(&Vec::new(), Protocol::Udp).is_empty());
    assert!(parse_table(&b"\n\n".to_vec(), Protocol::Udp).is_empty());
}

#[test]
fn decimal_text_and_back() {
    assert_eq!(decimal_bytes(0), b"0".to_vec());
    assert_eq!(decimal_bytes(8080), b"8080".to_vec());
    assert_eq!(decimal_bytes(u64::MAX), b"18446744073709551615".to_vec());
    assert_eq!(parse_decimal(&b"18446744073709551615".to_vec()), Some(u64::MAX));
    assert_eq!(parse_decimal(&b"18446744073709551616".to_vec()), None);
    assert_eq!(parse_decimal(&b"007".to_vec()), Some(7));
    assert_eq!(parse_decimal(&b"".to_vec()), None);
    assert_eq!(parse_decimal(&b"12a".to_vec()), None);
}

#[test]
fn tables_come_in_their_order() {
    let row = |handle: &str| {
        format!("0: 0100007F:1F90 00000000:0000 0A 0:0 0:0 0 0 0 {}\n", handle).into_bytes()
    };
    let row6 = |handle: &str| {
        format!(
            "0: 00000000000000000000000001000000:0035 00000000000000000000000000000000:0000 0A 0:0 0:0 0 0 0 {}\n",
            handle
        )
        .into_bytes()
    };
    let entries = parse_tables(&row("1"), &row6("2"), &Vec::new(), &row6("4"));
    assert_eq!(entries.len(), 3);
    assert_eq!(entries[0].handle, 1);
    assert_eq!(entries[0].proto, Protocol::Tcp);
    assert_eq!(entries[0].state, SocketState::Listen);
    assert_eq!(entries[1].handle, 2);
    assert_eq!(entries[1].proto, Protocol::Tcp);
    assert_eq!(entries[1].local.address, IpAddress::V6(0, 0, 0, 1));
    assert_eq!(entries[2].handle, 4);
    assert_eq!(entries[2].proto, Protocol::Udp);
    assert_eq!(entries[2].state, SocketState::Open);
}

#[test]
fn short_name_is_the_first_line() {
    assert_eq!(first_line(&b"sshd\n".to_vec()), b"sshd".to_vec());
    assert_eq!(first_line(&b"sshd".to_vec()), b"sshd".to_vec());
    assert_eq!(first_line(&b"a\nb\n".to_vec()), b"a".to_vec());
    assert_eq!(first_line(&b"\nb".to_vec()), Vec::<u8>::new());
    assert_eq!(first_line(&Vec::new()), Vec::<u8>::new());
}

#[test]
fn lines_passed_over_are_reported_by_position() {
    let text = b"head\n0: 0100007F:1F90 00000000:0000 0A 0:0 0:0 0 0 0 5\n\nbad row\n0: 0100007F:1F91 00000000:0000 0A 0:0 0:0 0 0 0 6\nend".to_vec();
    let (entries, rejects) = scan_table(&text, Protocol::Tcp);
    assert_eq!(entries, parse_table(&text, Protocol::Tcp));
    assert_eq!(entries.len(), 2);
    assert_eq!(entries[0].handle, 5);
    assert_eq!(entries[1].local.port, 8081);
    let bad = text.windows(7).position(|w| w == b"bad row").unwrap();
    assert_eq!(rejects, vec![0, bad, text.len() - 3]);
    let (entries, rejects) = scan_table(&Vec::new(), Protocol::Udp);
    assert!(entries.is_empty() && rejects.is_empty());
}
