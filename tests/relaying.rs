use relay_proxy::relay::{
    next_state, ConnAction, ConnEvent, ConnState, Direction, Pump, PumpAction, BUF_SIZE,
};
use relay_proxy::sniff::Sniffer;

fn next_rand(seed: &mut u64) -> u64 {
    *seed = seed.wrapping_mul(6364136223846793005).wrapping_add(1442695040888963407);
    *seed >> 33
}

/// Drives a pump over `input`, with reads and writes of random sizes; returns what it wrote.
fn run_pump(input: &[u8], seed: u64) -> Vec<u8> {
    let mut seed = seed;
    let mut pump = Pump::new();
    let mut out = Vec::new();
    let mut pos = 0;
    loop {
        let n = std::cmp::min(input.len() - pos, 1 + (next_rand(&mut seed) as usize) % BUF_SIZE);
        let mut action = pump.on_read(&input[pos..pos + n]);
        pos += n;
        loop {
            match action {
                PumpAction::Read => break,
                PumpAction::Stop => return out,
                PumpAction::Write(bytes) => {
                    let k = 1 + (next_rand(&mut seed) as usize) % bytes.len();
                    out.extend_from_slice(&bytes[..k]);
                    action = pump.on_written(k);
                }
            }
        }
    }
}

#[test]
fn pump_forwards_every_byte_in_order() {
    for round in 0..20u64 {
        let mut seed = round;
        let len = (next_rand(&mut seed) as usize) % 40000;
        let input: Vec<u8> = (0..len).map(|_| next_rand(&mut seed) as u8).collect();
        assert_eq!(run_pump(&input, round * 7 + 1), input);
    }
}

#[test]
fn pump_empty_stream_stops_at_once() {
    let mut pump = Pump::new();
    assert_eq!(pump.on_read(b""), PumpAction::Stop);
    assert!(pump.is_ended());
}

#[test]
fn pump_partial_write_asks_for_the_rest() {
    let mut pump = Pump::new();
    assert_eq!(pump.on_read(b"abcdef"), PumpAction::Write(b"abcdef".to_vec()));
    assert_eq!(pump.on_written(2), PumpAction::Write(b"cdef".to_vec()));
    assert_eq!(pump.on_written(4), PumpAction::Read);
    assert!(!pump.is_ended());
}

#[test]
fn pump_zero_write_and_error_stop() {
    let mut pump = Pump::new();
    assert_eq!(pump.on_read(b"xy"), PumpAction::Write(b"xy".to_vec()));
    assert_eq!(pump.on_written(0), PumpAction::Stop);
    let mut other = Pump::new();
    assert_eq!(other.on_error(), PumpAction::Stop);
    assert!(other.is_ended());
}

#[test]
fn unknown_request_is_still_forwarded_whole() {
    let data = b"FOO /x HTTP/1.1\r\nHost: example.com\r\n\r\npayload".to_vec();
    let mut sniffer = Sniffer::new();
    assert!(sniffer.feed(&data).is_none());
    assert!(sniffer.finished());
    assert_eq!(run_pump(&data, 3), data);
}

#[test]
fn connection_lifecycle_to_closed() {
    let (s, a) = next_state(ConnState::Accepted, ConnEvent::Start);
    assert_eq!((s, a), (ConnState::Connecting, ConnAction::Connect));
    let (s, a) = next_state(s, ConnEvent::Connected);
    assert_eq!((s, a), (ConnState::Relaying, ConnAction::StartRelay));
    let (s, a) = next_state(s, ConnEvent::PeerClosed(Direction::ServerToClient));
    assert_eq!((s, a), (ConnState::Closed, ConnAction::CloseBoth));
    let (s, a) = next_state(s, ConnEvent::PeerClosed(Direction::ClientToServer));
    assert_eq!((s, a), (ConnState::Closed, ConnAction::Nothing));
}

#[test]
fn io_error_on_either_direction_closes_both() {
    for d in [Direction::ClientToServer, Direction::ServerToClient] {
        let (s, a) = next_state(ConnState::Relaying, ConnEvent::IoFailed(d));
        assert_eq!((s, a), (ConnState::Closed, ConnAction::CloseBothAndReport));
        let (s, a) = next_state(ConnState::Relaying, ConnEvent::PeerClosed(d));
        assert_eq!((s, a), (ConnState::Closed, ConnAction::CloseBoth));
    }
}

#[test]
fn connect_failure_is_final() {
    let (s, a) = next_state(ConnState::Connecting, ConnEvent::ConnectFailed);
    assert_eq!((s, a), (ConnState::Failed, ConnAction::DropAndReport));
    assert_eq!(next_state(s, ConnEvent::Connected), (ConnState::Failed, ConnAction::Nothing));
    assert_eq!(next_state(ConnState::Accepted, ConnEvent::Connected), (ConnState::Accepted, ConnAction::Nothing));
}
