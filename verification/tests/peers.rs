use p2p_swarm::address::Multiaddr;
use p2p_swarm::peers::{load, parse_list, IOError, PeerFile};

fn texts(list: &[Multiaddr]) -> Vec<String> {
    list.iter().map(|a| a.to_text().expect("a valid address")).collect()
}

fn listed(text: &str) -> Vec<Multiaddr> {
    load(&PeerFile::Contents(text.as_bytes().to_vec())).expect("a readable list")
}

#[test]
fn missing_file_is_an_empty_list() {
    assert_eq!(load(&PeerFile::Missing), Ok(Vec::new()));
}

#[test]
fn empty_file_is_an_empty_list() {
    assert!(listed("").is_empty());
}

#[test]
fn valid_lines_are_kept_in_order_and_others_skipped() {
    let text = "/ip4/10.0.0.1/tcp/4001\n\nnot an address\n/ip9/bogus\n/ip6/::1/tcp/7\n   \n/ip4/10.0.0.2/tcp/4002\n";
    let list = listed(text);
    assert_eq!(
        texts(&list),
        vec!["/ip4/10.0.0.1/tcp/4001", "/ip6/::1/tcp/7", "/ip4/10.0.0.2/tcp/4002"]
    );
}

#[test]
fn last_line_needs_no_line_ending() {
    let list = listed("/ip4/10.0.0.1/tcp/1\n/ip4/10.0.0.2/tcp/2");
    assert_eq!(texts(&list), vec!["/ip4/10.0.0.1/tcp/1", "/ip4/10.0.0.2/tcp/2"]);
}

#[test]
fn carriage_returns_are_not_part_of_a_line() {
    let list = listed("/ip4/10.0.0.1/tcp/1\r\n\r\n/ip4/10.0.0.2/tcp/2\r\n");
    assert_eq!(texts(&list), vec!["/ip4/10.0.0.1/tcp/1", "/ip4/10.0.0.2/tcp/2"]);
}

#[test]
fn blank_lines_alone_give_nothing() {
    assert!(listed("\n\n\r\n\n").is_empty());
}

#[test]
fn duplicates_are_kept() {
    let list = listed("/ip4/10.0.0.1/tcp/1\n/ip4/10.0.0.1/tcp/1\n");
    assert_eq!(list.len(), 2);
    assert!(list[0].same(&list[1]));
}

#[test]
fn bytes_are_parsed_line_by_line() {
    let list = parse_list(b"/ip4/1.1.1.1/tcp/1\n\xff\xfe\n/ip4/2.2.2.2/tcp/2");
    assert_eq!(texts(&list), vec!["/ip4/1.1.1.1/tcp/1", "/ip4/2.2.2.2/tcp/2"]);
}

#[test]
fn unreadable_file_is_an_error() {
    assert_eq!(load(&PeerFile::Unreadable), Err(IOError::Unreadable));
}

#[test]
fn list_that_is_no_utf8_is_refused_as_a_whole() {
    let file = PeerFile::Contents(b"\xff\n/ip4/1.1.1.1/tcp/1\n".to_vec());
    assert_eq!(load(&file), Err(IOError::InvalidData));
    let file = PeerFile::Contents(b"/ip4/1.1.1.1/tcp/1\n\xc3".to_vec());
    assert_eq!(load(&file), Err(IOError::InvalidData));
}

#[test]
fn carriage_return_that_ends_the_text_belongs_to_its_line() {
    // the last line is the address with a carriage return, which is no address
    assert!(listed("/ip4/10.0.0.1/tcp/4001\r").is_empty());
    let list = listed("/ip4/10.0.0.1/tcp/1\r\n/ip4/10.0.0.2/tcp/2\r");
    assert_eq!(texts(&list), vec!["/ip4/10.0.0.1/tcp/1"]);
    // before a newline it is part of the line ending
    let list = listed("/ip4/10.0.0.1/tcp/1\r\n/ip4/10.0.0.2/tcp/2\r\n");
    assert_eq!(texts(&list), vec!["/ip4/10.0.0.1/tcp/1", "/ip4/10.0.0.2/tcp/2"]);
    assert!(parse_list(b"/\r").is_empty());
}

#[test]
fn only_one_carriage_return_is_part_of_a_line_ending() {
    assert!(listed("/ip4/10.0.0.1/tcp/1\r\r\n").is_empty());
    assert!(listed("/ip4/10.0.0.1/tcp/1\r/ip4/10.0.0.2/tcp/2\n").is_empty());
}

#[test]
fn three_valid_lines_among_five_others_give_three_addresses() {
    let text = "\n/ip4/1.1.1.1/tcp/1\nfoo\n/ip4/2.2.2.2/tcp/2\n/tcp\n\n/ip4/3.3.3.3/tcp/3\n/ip4/x/tcp/1";
    let list = listed(text);
    assert_eq!(list.len(), 3);
    assert_eq!(texts(&list), vec!["/ip4/1.1.1.1/tcp/1", "/ip4/2.2.2.2/tcp/2", "/ip4/3.3.3.3/tcp/3"]);
}
