use crypto_identity::ca_exchange::advance;
use crypto_identity::ca_exchange::decode_length;
use crypto_identity::ca_exchange::drain_state;
use crypto_identity::ca_exchange::drain_step;
use crypto_identity::ca_exchange::length_field;
use crypto_identity::ca_exchange::CaExchangeConfig;
use crypto_identity::ca_exchange::CaExchangeError;
use crypto_identity::ca_exchange::HandshakeAction;
use crypto_identity::ca_exchange::HandshakeState;
use crypto_identity::ca_exchange::CA;

fn run(config: &CaExchangeConfig, incoming: &[u8]) -> (Vec<u8>, Vec<usize>, usize) {
    let mut written = Vec::new();
    let mut reads = Vec::new();
    let mut at = 0;
    let mut state = config.start();
    loop {
        match config.action(state) {
            HandshakeAction::Write(bytes) => {
                written.extend_from_slice(&bytes);
                state = advance(state, &[]).unwrap();
            }
            HandshakeAction::Read(count) => {
                reads.push(count);
                state = advance(state, &incoming[at..at + count]).unwrap();
                at += count;
            }
            HandshakeAction::Finish => return (written, reads, at),
        }
    }
}

#[test]
fn length_field_is_little_endian() {
    assert_eq!(length_field(0), [0, 0]);
    assert_eq!(length_field(1), [1, 0]);
    assert_eq!(length_field(255), [255, 0]);
    assert_eq!(length_field(256), [0, 1]);
    assert_eq!(length_field(0x1234), [0x34, 0x12]);
    assert_eq!(length_field(0xffff), [0xff, 0xff]);
    assert_eq!(length_field(0x1_0000), [0, 0]);
    assert_eq!(length_field(0x1_0203), [3, 2]);
    assert_eq!(decode_length(&[0, 0]), 0);
    assert_eq!(decode_length(&[0x34, 0x12]), 0x1234);
    assert_eq!(decode_length(&[0xff, 0xff]), 0xffff);
    for len in [0usize, 7, 8, 9, 300, 3072, 65535] {
        assert_eq!(decode_length(&length_field(len)), len);
    }
}

#[test]
fn drain_reads_eight_bytes_and_then_single_bytes() {
    assert_eq!(drain_step(0), 0);
    assert_eq!(drain_step(1), 1);
    assert_eq!(drain_step(8), 1);
    assert_eq!(drain_step(9), 8);
    assert_eq!(drain_step(3072), 8);
    assert_eq!(drain_state(0), HandshakeState::Done);
    assert_eq!(drain_state(5), HandshakeState::Drain { remaining: 5 });
}

#[test]
fn exchange_writes_own_certificate_and_reads_the_other() {
    let config = CaExchangeConfig::new(CA::new(vec![9, 9]), CA::new(vec![1, 2, 3, 4, 5]));
    let mut incoming = vec![20u8, 0];
    incoming.extend_from_slice(&[7u8; 20]);
    let (written, reads, taken) = run(&config, &incoming);
    assert_eq!(written, vec![5, 0, 1, 2, 3, 4, 5]);
    assert_eq!(reads, vec![2, 8, 8, 1, 1, 1, 1]);
    assert_eq!(taken, 22);
}

#[test]
fn exchange_with_an_empty_certificate_reads_only_the_length() {
    let config = CaExchangeConfig::new(CA::new(vec![]), CA::new(vec![]));
    let (written, reads, taken) = run(&config, &[0, 0]);
    assert_eq!(written, vec![0, 0]);
    assert_eq!(reads, vec![2]);
    assert_eq!(taken, 2);
}

#[test]
fn exchange_reads_every_announced_byte() {
    let config = CaExchangeConfig::new(CA::new(vec![]), CA::new(vec![0xaa; 300]));
    for len in [1usize, 7, 8, 9, 16, 17, 255, 256, 3072] {
        let mut incoming = length_field(len).to_vec();
        incoming.extend_from_slice(&vec![0u8; len]);
        let (written, reads, taken) = run(&config, &incoming);
        assert_eq!(&written[..2], &[44, 1]);
        assert_eq!(written.len(), 302);
        assert_eq!(taken, len + 2);
        assert_eq!(reads.iter().sum::<usize>(), len + 2);
        let eights = if len > 8 { (len - 1) / 8 } else { 0 };
        assert_eq!(reads.len(), 1 + eights + (len - 8 * eights));
    }
}

#[test]
fn states_follow_one_another() {
    assert_eq!(advance(HandshakeState::SendLength, &[]), Ok(HandshakeState::SendCert));
    assert_eq!(advance(HandshakeState::SendCert, &[]), Ok(HandshakeState::ReadLength));
    assert_eq!(
        advance(HandshakeState::ReadLength, &[10, 0]),
        Ok(HandshakeState::Drain { remaining: 10 })
    );
    assert_eq!(advance(HandshakeState::ReadLength, &[0, 0]), Ok(HandshakeState::Done));
    assert_eq!(
        advance(HandshakeState::Drain { remaining: 10 }, &[0; 8]),
        Ok(HandshakeState::Drain { remaining: 2 })
    );
    assert_eq!(
        advance(HandshakeState::Drain { remaining: 2 }, &[0]),
        Ok(HandshakeState::Drain { remaining: 1 })
    );
    assert_eq!(advance(HandshakeState::Drain { remaining: 1 }, &[0]), Ok(HandshakeState::Done));
    assert_eq!(advance(HandshakeState::Done, &[]), Ok(HandshakeState::Done));
}

#[test]
fn a_read_of_another_size_ends_the_exchange() {
    assert_eq!(advance(HandshakeState::ReadLength, &[1]), Err(CaExchangeError::HandshakeError));
    assert_eq!(
        advance(HandshakeState::ReadLength, &[1, 2, 3]),
        Err(CaExchangeError::HandshakeError)
    );
    assert_eq!(
        advance(HandshakeState::Drain { remaining: 10 }, &[0; 7]),
        Err(CaExchangeError::HandshakeError)
    );
    assert_eq!(
        advance(HandshakeState::Drain { remaining: 8 }, &[0; 8]),
        Err(CaExchangeError::HandshakeError)
    );
    assert_eq!(
        advance(HandshakeState::Drain { remaining: 3 }, &[]),
        Err(CaExchangeError::HandshakeError)
    );
}
